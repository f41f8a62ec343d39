use astronomore::date_input::parse_date;

#[test]
fn iso_dates() {
    assert_eq!(parse_date("2024-03-15"), Some((2024, 3, 15)));
    assert_eq!(parse_date("0001-01-01"), Some((1, 1, 1)));
    assert_eq!(parse_date("+2000-+1-+1"), Some((2000, 1, 1)));
}

#[test]
fn rejected_values() {
    assert_eq!(parse_date(""), None);
    assert_eq!(parse_date("2024-03"), None);
    assert_eq!(parse_date("-0044-03-15"), None);
    assert_eq!(parse_date("2024-3a-15"), None);
    assert_eq!(parse_date("2024--15"), None);
    assert_eq!(parse_date("2024-256-01"), None);
    assert_eq!(parse_date("2147483648-01-01"), None);
    assert_eq!(parse_date("+-01-01"), None);
    assert_eq!(parse_date("2024-é-01"), None);
}

#[test]
fn unchecked_ranges_and_extra_fields() {
    assert_eq!(parse_date("2147483647-255-0"), Some((i32::MAX, 255, 0)));
    assert_eq!(parse_date("2024-13-40-junk"), Some((2024, 13, 40)));
    assert_eq!(parse_date("007-0009-00031"), Some((7, 9, 31)));
}
