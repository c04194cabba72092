use ledger::errors::Error;
use ledger::util::{csv, date_to_period, str_as_anuh, str_as_anuhdc, CalDate};

fn date(year: i32, month: u32, day: u32) -> CalDate {
    CalDate::new(year, month, day).unwrap()
}

#[test]
fn test_csv_splits_at_commas() {
    let v = csv("INR,USD,,EUR".to_string()).unwrap();
    assert_eq!(v, vec!["INR".to_string(), "USD".to_string(), "".to_string(), "EUR".to_string()]);
}

#[test]
fn test_csv_keeps_spaces() {
    let v = csv(" a , b".to_string()).unwrap();
    assert_eq!(v, vec![" a ".to_string(), " b".to_string()]);
}

#[test]
fn test_csv_empty_is_one_empty_piece() {
    let v = csv("".to_string()).unwrap();
    assert_eq!(v, vec!["".to_string()]);
}

#[test]
fn test_str_as_anuh() {
    assert!(str_as_anuh("abc_DEF-123"));
    assert!(str_as_anuh(""));
    assert!(str_as_anuh("日本語ñ"));
    assert!(!str_as_anuh("நன்றி"));
    assert!(!str_as_anuh("a b"));
    assert!(!str_as_anuh("a.b"));
    assert!(!str_as_anuh("a:b"));
}

#[test]
fn test_str_as_anuhdc() {
    assert!(str_as_anuhdc("money.asia:in-1_x"));
    assert!(!str_as_anuhdc("a,b"));
    assert!(!str_as_anuhdc("a b"));
}

#[test]
fn test_caldate_new_checks_the_calendar() {
    assert!(CalDate::new(2020, 2, 29).is_some());
    assert!(CalDate::new(2021, 2, 29).is_none());
    assert!(CalDate::new(1900, 2, 29).is_none());
    assert!(CalDate::new(2000, 2, 29).is_some());
    assert!(CalDate::new(2021, 4, 31).is_none());
    assert!(CalDate::new(2021, 13, 1).is_none());
    assert!(CalDate::new(2021, 1, 0).is_none());
}

#[test]
fn test_date_to_period_before_april() {
    let (from, to) = date_to_period(date(2021, 3, 31));
    assert!(from == date(2020, 4, 1));
    assert!(to == date(2021, 3, 31));
    let (from, to) = date_to_period(date(2021, 1, 1));
    assert!(from == date(2020, 4, 1));
    assert!(to == date(2021, 3, 31));
}

#[test]
fn test_date_to_period_from_april() {
    let (from, to) = date_to_period(date(2021, 4, 1));
    assert!(from == date(2021, 4, 1));
    assert!(to == date(2022, 3, 31));
    let (from, to) = date_to_period(date(2021, 12, 31));
    assert!(from == date(2021, 4, 1));
    assert!(to == date(2022, 3, 31));
}

#[test]
fn test_period_contains_its_dates() {
    for (y, m, d) in [(2019, 4, 1), (2020, 2, 29), (2020, 3, 31), (2020, 11, 30)] {
        let dt = date(y, m, d);
        let (from, to) = date_to_period(dt);
        assert!((from.year, from.month, from.day) <= (dt.year, dt.month, dt.day));
        assert!((dt.year, dt.month, dt.day) <= (to.year, to.month, to.day));
        assert!(date_to_period(from) == (from, to));
        assert!(date_to_period(to) == (from, to));
    }
}

#[test]
fn test_error_to_string() {
    let e = Error::InvalidInput("name".to_string());
    assert_eq!(e.to_string(), "InvalidInput:name");
    let e = Error::Fatal("".to_string());
    assert_eq!(e.to_string(), "Fatal:");
}

#[test]
fn test_trim_unicode_white_space() {
    assert_eq!(ledger::text::trim("\u{3000}\u{2003} a b\u{85}\u{a0}\u{2029}"), "a b");
    assert_eq!(ledger::text::trim("\u{200b}x\u{180e}"), "\u{200b}x\u{180e}");
}
