use astronomore::calendar::{gregorian_to_jdn, jdn_to_gregorian};

#[test]
fn j2000_epoch_day_number() {
    // 2000-01-01 12:00 TT is JD 2451545.0; midnight of that date is JD 2451544.5.
    assert_eq!(gregorian_to_jdn(2000, 1, 1), 2_451_545);
    assert_eq!(jdn_to_gregorian(2_451_545), (2000, 1, 1));
}

#[test]
fn meeus_examples() {
    // Meeus, chapter 7: 1957 October 4.81 is JD 2436116.31.
    assert_eq!(gregorian_to_jdn(1957, 10, 4), 2_436_116);
    // JD 1842713.0 is 333 January 27.5 in the Julian calendar, which is
    // 333 January 28 in the proleptic Gregorian calendar.
    assert_eq!(jdn_to_gregorian(1_842_713), (333, 1, 28));
}

#[test]
fn proleptic_before_the_reform() {
    assert_eq!(gregorian_to_jdn(1582, 10, 15), 2_299_161);
    // The day before 1582-10-15 is 1582-10-14 in the proleptic Gregorian calendar.
    assert_eq!(jdn_to_gregorian(2_299_160), (1582, 10, 14));
    assert_eq!(gregorian_to_jdn(1000, 1, 1), 2_086_303);
    assert_eq!(jdn_to_gregorian(2_086_303), (1000, 1, 1));
    // Day number 0 (JD -0.5) and dates before year 1.
    assert_eq!(jdn_to_gregorian(0), (-4713, 11, 24));
    assert_eq!(gregorian_to_jdn(-4713, 11, 24), 0);
    for &(y, m, d) in &[(-100, 3, 1), (0, 2, 29), (-401, 12, 31), (1, 1, 1)] {
        assert_eq!(jdn_to_gregorian(gregorian_to_jdn(y, m, d)), (y, m, d));
    }
}

#[test]
fn leap_days_round_trip() {
    for &(y, m, d) in &[(2000, 2, 29), (2024, 2, 29), (1900, 2, 28), (1900, 3, 1), (2100, 3, 1), (1999, 12, 31)] {
        let jdn = gregorian_to_jdn(y, m, d);
        assert_eq!(jdn_to_gregorian(jdn), (y, m, d));
    }
    // 1900 is no leap year: the day after February 28 is March 1.
    assert_eq!(gregorian_to_jdn(1900, 3, 1) - gregorian_to_jdn(1900, 2, 28), 1);
    // 2000 is one: February 29 lies between.
    assert_eq!(gregorian_to_jdn(2000, 3, 1) - gregorian_to_jdn(2000, 2, 28), 2);
}

#[test]
fn consecutive_days_have_consecutive_numbers() {
    let start = gregorian_to_jdn(1999, 1, 1);
    let mut jdn = start;
    let mut last = jdn_to_gregorian(jdn);
    for _ in 0..800 {
        jdn += 1;
        let next = jdn_to_gregorian(jdn);
        assert!(next > last, "{next:?} after {last:?}");
        assert_eq!(gregorian_to_jdn(next.0, next.1, next.2), jdn);
        last = next;
    }
    assert_eq!(last, (2001, 3, 11));
}

#[test]
fn year_saturates_far_from_epoch() {
    let (y, m, d) = jdn_to_gregorian(i64::MAX);
    assert_eq!(y, i32::MAX);
    assert!((1..=12).contains(&m) && (1..=31).contains(&d));
    let (y, _, _) = jdn_to_gregorian(i64::MIN);
    assert_eq!(y, i32::MIN);
}

#[test]
fn unchecked_month_is_applied_as_given() {
    // Month 0 counts as December of the previous year.
    assert_eq!(gregorian_to_jdn(2000, 0, 1), gregorian_to_jdn(1999, 12, 1));
}
