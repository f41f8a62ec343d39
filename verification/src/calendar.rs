//! Proleptic Gregorian calendar dates and Julian day numbers.
//!
//! The algorithm is the one of Meeus, *Astronomical Algorithms*, chapter 7,
//! written over integers: the Julian Day at 0:00 UT of a date is its Julian
//! day number (JDN) minus one half, so the day number carries the whole
//! information.
use vstd::prelude::*;

verus! {

/// The year counted from March: January and February belong to the previous year.
pub open spec fn march_year(year: int, month: int) -> int {
    if month <= 2 { year - 1 } else { year }
}

/// The month counted from March: January and February are months 13 and 14.
pub open spec fn march_month(month: int) -> int {
    if month <= 2 { month + 12 } else { month }
}

/// `floor(30.6001 * (m + 1))`: the days of the months before March-based month `m`, plus 122.
pub open spec fn month_offset(m: int) -> int {
    (306001 * (m + 1)) / 10000
}

/// `floor(365.25 * n)`: the days of `n` years of the Julian calendar, counted
/// from a year that follows a leap year.
pub open spec fn quarter_days(n: int) -> int {
    (1461 * n) / 4
}

/// The Gregorian correction `2 - A + floor(A / 4)` with `A = floor(y / 100)`.
pub open spec fn gregorian_correction(y: int) -> int {
    2 - y / 100 + (y / 100) / 4
}

/// Julian day number of a proleptic Gregorian date (Meeus, chapter 7).
pub open spec fn date_to_jdn(year: int, month: int, day: int) -> int {
    let y = march_year(year, month);
    let m = march_month(month);
    quarter_days(y + 4716) + month_offset(m) + day + gregorian_correction(y) - 1524
}

/// The intermediate `A` of the inverse conversion: the day number with the
/// Gregorian correction taken out.
pub open spec fn jdn_julian_part(z: int) -> int {
    let alpha = (4 * z - 7468865) / 146097;
    z + 1 + alpha - alpha / 4
}

/// The year count `C` of the inverse conversion.
pub open spec fn jdn_year_count(z: int) -> int {
    (20 * (jdn_julian_part(z) + 1524) - 2442) / 7305
}

/// Days of the March-based year that precede and include the date, plus 122.
pub open spec fn jdn_day_of_year(z: int) -> int {
    jdn_julian_part(z) + 1524 - quarter_days(jdn_year_count(z))
}

/// The March-based month count `E` of the inverse conversion.
pub open spec fn jdn_month_count(z: int) -> int {
    (10000 * jdn_day_of_year(z)) / 306001
}

/// Day of the month of day number `z` (Meeus, chapter 7).
pub open spec fn jdn_day(z: int) -> int {
    jdn_day_of_year(z) - month_offset(jdn_month_count(z) - 1)
}

/// Month of day number `z` (Meeus, chapter 7).
pub open spec fn jdn_month(z: int) -> int {
    let e = jdn_month_count(z);
    if e < 14 { e - 1 } else { e - 13 }
}

/// Year of day number `z` (Meeus, chapter 7).
pub open spec fn jdn_year(z: int) -> int {
    if jdn_month(z) > 2 { jdn_year_count(z) - 4716 } else { jdn_year_count(z) - 4715 }
}

/// An integer saturated into the range of `i32`, as the `as i32` cast of a float does.
pub open spec fn saturate_i32(x: int) -> int {
    if x > i32::MAX { i32::MAX as int } else if x < i32::MIN { i32::MIN as int } else { x }
}

pub open spec fn is_leap_year(year: int) -> bool {
    (year % 4 == 0 && year % 100 != 0) || year % 400 == 0
}

pub open spec fn days_in_month(year: int, month: int) -> int {
    if month == 2 {
        if is_leap_year(year) { 29 } else { 28 }
    } else if month == 4 || month == 6 || month == 9 || month == 11 {
        30
    } else {
        31
    }
}

/// A date of the proleptic Gregorian calendar.
pub open spec fn is_valid_date(year: int, month: int, day: int) -> bool {
    1 <= month <= 12 && 1 <= day <= days_in_month(year, month)
}

fn floor_div(a: i128, b: i128) -> (q: i128)
    requires
        b > 0,
        -0x1_0000_0000_0000_0000_0000_0000 <= a <= 0x1_0000_0000_0000_0000_0000_0000,
    ensures
        q == a / b,
{
    assert(-0x1_0000_0000_0000_0000_0000_0000 <= a / b <= 0x1_0000_0000_0000_0000_0000_0000)
        by (nonlinear_arith)
        requires
            b > 0,
            -0x1_0000_0000_0000_0000_0000_0000 <= a <= 0x1_0000_0000_0000_0000_0000_0000,
    {
        vstd::arithmetic::div_mod::lemma_fundamental_div_mod(a as int, b as int);
    }
    let q = a.checked_div_euclid(b);
    match q {
        Some(q) => q,
        None => {
            assert(false);
            0
        },
    }
}

/// Julian day number of the proleptic Gregorian date `year-month-day`; the
/// Julian Day at 0:00 UT of that date is this number minus one half.
///
/// Month and day are not range-checked: the formula is applied as it stands.
pub fn gregorian_to_jdn(year: i32, month: u8, day: u8) -> (jdn: i64)
    ensures
        jdn == date_to_jdn(year as int, month as int, day as int),
{
    let y: i128 = if month <= 2 { year as i128 - 1 } else { year as i128 };
    let m: i128 = if month <= 2 { month as i128 + 12 } else { month as i128 };
    let a = floor_div(y, 100);
    let b = 2 - a + floor_div(a, 4);
    let jdn = floor_div(1461 * (y + 4716), 4) + floor_div(306001 * (m + 1), 10000) + day as i128 + b
        - 1524;
    jdn as i64
}

/// `x / d` is the floor of `x` divided by a positive `d`.
proof fn lemma_floor(x: int, d: int)
    requires
        d > 0,
    ensures
        d * (x / d) <= x < d * (x / d) + d,
{
    vstd::arithmetic::div_mod::lemma_fundamental_div_mod(x, d);
    vstd::arithmetic::div_mod::lemma_mod_bound(x, d);
}

/// The day of the month lies in `1..=31`, the month in `1..=12`, for every day number.
pub proof fn lemma_jdn_date_ranges(z: int)
    ensures
        4 <= jdn_month_count(z) <= 15,
        123 <= jdn_day_of_year(z) <= 488,
        1 <= jdn_day(z) <= 31,
        1 <= jdn_month(z) <= 12,
{
    let b = jdn_julian_part(z) + 1524;
    let c = jdn_year_count(z);
    let r = jdn_day_of_year(z);
    let e = jdn_month_count(z);
    lemma_floor(20 * b - 2442, 7305);
    lemma_floor(1461 * c, 4);
    assert(123 <= r <= 488);
    lemma_floor(10000 * r, 306001);
    lemma_floor(306001 * (e - 1 + 1), 10000);
    assert(4 <= e <= 15);
    assert(1 <= jdn_day(z) <= 31);
}

/// Proleptic Gregorian date `(year, month, day)` of the day number `jdn`
/// (Meeus, chapter 7), the inverse of [`gregorian_to_jdn`]. A year outside
/// the range of `i32` is saturated.
pub fn jdn_to_gregorian(jdn: i64) -> (date: (i32, u8, u8))
    ensures
        date.0 == saturate_i32(jdn_year(jdn as int)),
        date.1 == jdn_month(jdn as int),
        date.2 == jdn_day(jdn as int),
{
    proof {
        lemma_jdn_date_ranges(jdn as int);
    }
    let z = jdn as i128;
    let alpha = floor_div(4 * z - 7468865, 146097);
    let a = z + 1 + alpha - floor_div(alpha, 4);
    let b = a + 1524;
    let c = floor_div(20 * b - 2442, 7305);
    let d = floor_div(1461 * c, 4);
    let e = floor_div(10000 * (b - d), 306001);
    let day = b - d - floor_div(306001 * e, 10000);
    let month = if e < 14 { e - 1 } else { e - 13 };
    let year = if month > 2 { c - 4716 } else { c - 4715 };
    let year32: i32 = if year > i32::MAX as i128 {
        i32::MAX
    } else if year < i32::MIN as i128 {
        i32::MIN
    } else {
        year as i32
    };
    (year32, month as u8, day as u8)
}

/// Day of the March-based year (plus 122) of a date: `floor(30.6001 (M + 1)) + day`.
pub open spec fn march_day_of_year(month: int, day: int) -> int {
    month_offset(march_month(month)) + day
}

/// The month offsets of the twelve March-based months, and the bounds that
/// make a valid day of the month land in the right month.
proof fn lemma_month_offsets(month: int, day: int, leap: bool)
    requires
        1 <= month <= 12,
        1 <= day,
        month == 2 ==> day <= if leap { 29int } else { 28int },
        month == 4 || month == 6 || month == 9 || month == 11 ==> day <= 30,
        day <= 31,
    ensures
        123 <= march_day_of_year(month, day) <= 488,
        march_day_of_year(month, day) == 488 ==> month == 2 && day == 29,
        306001 * (march_month(month) + 1) < 10000 * march_day_of_year(month, day),
        10000 * march_day_of_year(month, day) < 306001 * (march_month(month) + 2),
{
    let m = march_month(month);
    if month == 1 {
        assert(month_offset(m) == 428);
    } else if month == 2 {
        assert(month_offset(m) == 459);
    } else if month == 3 {
        assert(month_offset(m) == 122);
    } else if month == 4 {
        assert(month_offset(m) == 153);
    } else if month == 5 {
        assert(month_offset(m) == 183);
    } else if month == 6 {
        assert(month_offset(m) == 214);
    } else if month == 7 {
        assert(month_offset(m) == 244);
    } else if month == 8 {
        assert(month_offset(m) == 275);
    } else if month == 9 {
        assert(month_offset(m) == 306);
    } else if month == 10 {
        assert(month_offset(m) == 336);
    } else if month == 11 {
        assert(month_offset(m) == 367);
    } else {
        assert(month_offset(m) == 397);
    }
}

/// `floor(365.25 (y + 4716))` split into whole days and the leap days of `y`.
proof fn lemma_quarter_days(y: int)
    ensures
        quarter_days(y + 4716) == 365 * (y + 4716) + 1179 + y / 4,
{
    lemma_floor(1461 * (y + 4716), 4);
    lemma_floor(y, 4);
}

/// The year `100 (a + 1)` is a leap year only when `a + 1` is a multiple of four.
proof fn lemma_leap_century(a: int)
    requires
        is_leap_year(100 * (a + 1)),
    ensures
        a - 4 * (a / 4) == 3,
{
    let year = 100 * (a + 1);
    vstd::arithmetic::div_mod::lemma_fundamental_div_mod(year, 100);
    vstd::arithmetic::div_mod::lemma_mod_bound(year, 100);
    vstd::arithmetic::div_mod::lemma_fundamental_div_mod(year, 4);
    vstd::arithmetic::div_mod::lemma_mod_bound(year, 4);
    assert(year % 100 == 0);
    assert(year % 400 == 0);
    vstd::arithmetic::div_mod::lemma_fundamental_div_mod(year, 400);
    lemma_floor(a, 4);
}

/// For a valid date, the century count `alpha` of the inverse conversion is
/// the century of the March-based year minus four.
proof fn lemma_century_count(year: int, month: int, day: int)
    requires
        is_valid_date(year, month, day),
    ensures
        (4 * date_to_jdn(year, month, day) - 7468865) / 146097 == march_year(year, month) / 100 - 4,
{
    let y = march_year(year, month);
    let z = date_to_jdn(year, month, day);
    let a = y / 100;
    let r = y - 100 * a;
    let t = y - 4 * (y / 4);
    let fd = march_day_of_year(month, day);
    lemma_month_offsets(month, day, is_leap_year(year));
    lemma_quarter_days(y);
    lemma_floor(y, 100);
    lemma_floor(a, 4);
    lemma_floor(y, 4);
    let d = 4 * z - 7468865 - 146097 * (a - 4);
    assert(d == 1461 * r - t - (a - 4 * (a / 4)) + 4 * fd - 489);
    assert(0 <= d) by {
        if r == 0 {
            assert(y / 4 == 25 * a);
        }
    }
    assert(d < 146097) by {
        if r == 99 {
            assert(y / 4 == 25 * a + 24);
            if fd == 488 {
                assert(year == 100 * (a + 1));
                lemma_leap_century(a);
            }
        }
    }
    lemma_floor(4 * z - 7468865, 146097);
}

/// Converting a valid proleptic Gregorian date to its day number and back
/// gives the date again.
pub proof fn lemma_date_round_trip(year: int, month: int, day: int)
    requires
        is_valid_date(year, month, day),
    ensures
        jdn_year(date_to_jdn(year, month, day)) == year,
        jdn_month(date_to_jdn(year, month, day)) == month,
        jdn_day(date_to_jdn(year, month, day)) == day,
{
    let y = march_year(year, month);
    let m = march_month(month);
    let z = date_to_jdn(year, month, day);
    let a = y / 100;
    let q = quarter_days(y + 4716);
    let fd = march_day_of_year(month, day);
    lemma_century_count(year, month, day);
    lemma_month_offsets(month, day, is_leap_year(year));
    lemma_floor(a, 4);
    lemma_floor(a - 4, 4);
    assert((a - 4) / 4 == a / 4 - 1);
    assert(jdn_julian_part(z) == q + fd - 1524);
    lemma_floor(1461 * (y + 4716), 4);
    lemma_floor(year, 4);
    lemma_floor(20 * (q + fd) - 2442, 7305);
    assert(jdn_year_count(z) == y + 4716);
    assert(jdn_day_of_year(z) == fd);
    lemma_floor(10000 * fd, 306001);
    assert(jdn_month_count(z) == m + 1);
}

/// Converting any day number to a date and back gives the day number again,
/// and the date is a valid proleptic Gregorian date.
pub proof fn lemma_jdn_round_trip(z: int)
    ensures
        is_valid_date(jdn_year(z), jdn_month(z), jdn_day(z)),
        date_to_jdn(jdn_year(z), jdn_month(z), jdn_day(z)) == z,
{
    let year = jdn_year(z);
    let month = jdn_month(z);
    let day = jdn_day(z);
    let alpha = (4 * z - 7468865) / 146097;
    let a = jdn_julian_part(z);
    let b = a + 1524;
    let c = jdn_year_count(z);
    let q = quarter_days(c);
    let r = jdn_day_of_year(z);
    let e = jdn_month_count(z);
    lemma_jdn_date_ranges(z);
    lemma_floor(4 * z - 7468865, 146097);
    lemma_floor(alpha, 4);
    lemma_floor(20 * b - 2442, 7305);
    lemma_floor(1461 * c, 4);
    lemma_floor(10000 * r, 306001);
    lemma_floor(306001 * e, 10000);
    let y = march_year(year, month);
    assert(y == c - 4716);
    assert(march_month(month) == e - 1);
    assert(march_day_of_year(month, day) == r);
    lemma_floor(y, 100);
    assert(y / 100 == alpha + 4);
    lemma_floor(y / 100, 4);
    lemma_floor(alpha + 4, 4);
    assert(date_to_jdn(year, month, day) == z);
    lemma_floor(year, 4);
    lemma_floor(year, 100);
    lemma_floor(year, 400);
    assert(1 <= day <= days_in_month(year, month));
}

/// The day after a date: the next day of the month, the first of the next
/// month after a month's last day, and January 1 after December 31.
pub open spec fn next_day(year: int, month: int, day: int) -> (int, int, int) {
    if day < days_in_month(year, month) {
        (year, month, day + 1)
    } else if month < 12 {
        (year, month + 1, 1)
    } else {
        (year + 1, 1, 1)
    }
}

/// The leap-day term of the Gregorian correction from one March-based year
/// to the next: one exactly when `y` is a leap year.
proof fn lemma_leap_term(y: int)
    ensures
        (y / 4 - (y - 1) / 4) - (y / 100 - (y - 1) / 100) + ((y / 100) / 4 - ((y - 1) / 100) / 4) == if is_leap_year(
            y,
        ) {
            1int
        } else {
            0int
        },
{
    let a = y / 100;
    let b = (y - 1) / 100;
    lemma_floor(y, 4);
    lemma_floor(y - 1, 4);
    lemma_floor(y, 100);
    lemma_floor(y - 1, 100);
    lemma_floor(a, 4);
    lemma_floor(b, 4);
    vstd::arithmetic::div_mod::lemma_fundamental_div_mod(y, 4);
    vstd::arithmetic::div_mod::lemma_mod_bound(y, 4);
    vstd::arithmetic::div_mod::lemma_fundamental_div_mod(y, 100);
    vstd::arithmetic::div_mod::lemma_mod_bound(y, 100);
    vstd::arithmetic::div_mod::lemma_fundamental_div_mod(y, 400);
    vstd::arithmetic::div_mod::lemma_mod_bound(y, 400);
    lemma_floor(y, 400);
    if y % 100 == 0 {
        assert(y == 100 * a);
        assert(b == a - 1);
        assert(y % 4 == 0);
        if y % 400 == 0 {
            assert(a == 4 * (y / 400));
        }
    } else {
        assert(b == a);
    }
}

/// Consecutive dates have consecutive day numbers: the day number of the day
/// after a valid date is one more than the date's, and that day is valid too.
pub proof fn lemma_next_day_number(year: int, month: int, day: int)
    requires
        is_valid_date(year, month, day),
    ensures
        is_valid_date(next_day(year, month, day).0, next_day(year, month, day).1, next_day(year, month, day).2),
        date_to_jdn(next_day(year, month, day).0, next_day(year, month, day).1, next_day(year, month, day).2)
            == date_to_jdn(year, month, day) + 1,
{
    if day < days_in_month(year, month) {
    } else if month == 2 {
        let y = year;
        lemma_quarter_days(y - 1);
        lemma_quarter_days(y);
        lemma_leap_term(y);
        assert(month_offset(14) == 459);
        assert(month_offset(3) == 122);
    } else if month == 1 {
        assert(month_offset(13) == 428);
        assert(month_offset(14) == 459);
    } else if month == 12 {
        assert(month_offset(12) == 397);
        assert(month_offset(13) == 428);
    } else if month == 3 {
        assert(month_offset(3) == 122);
        assert(month_offset(4) == 153);
    } else if month == 4 {
        assert(month_offset(4) == 153);
        assert(month_offset(5) == 183);
    } else if month == 5 {
        assert(month_offset(5) == 183);
        assert(month_offset(6) == 214);
    } else if month == 6 {
        assert(month_offset(6) == 214);
        assert(month_offset(7) == 244);
    } else if month == 7 {
        assert(month_offset(7) == 244);
        assert(month_offset(8) == 275);
    } else if month == 8 {
        assert(month_offset(8) == 275);
        assert(month_offset(9) == 306);
    } else if month == 9 {
        assert(month_offset(9) == 306);
        assert(month_offset(10) == 336);
    } else if month == 10 {
        assert(month_offset(10) == 336);
        assert(month_offset(11) == 367);
    } else {
        assert(month_offset(11) == 367);
        assert(month_offset(12) == 397);
    }
}

/// The anchor of the numbering: 2000-01-01 (the day of the J2000.0 epoch,
/// JD 2451545.0 at noon) has day number 2451545.
pub proof fn lemma_epoch_day_number()
    ensures
        date_to_jdn(2000, 1, 1) == 2451545,
{
    assert(quarter_days(6715) == 2452653);
    assert(month_offset(13) == 428);
    assert(gregorian_correction(1999) == -13);
}

/// The day number after day number `z` belongs to the day after `z`'s date.
pub proof fn lemma_next_date_of_number(z: int)
    ensures
        (jdn_year(z + 1), jdn_month(z + 1), jdn_day(z + 1)) == next_day(jdn_year(z), jdn_month(z), jdn_day(z)),
{
    lemma_jdn_round_trip(z);
    let d = next_day(jdn_year(z), jdn_month(z), jdn_day(z));
    lemma_next_day_number(jdn_year(z), jdn_month(z), jdn_day(z));
    lemma_date_round_trip(d.0, d.1, d.2);
}

} // verus!
