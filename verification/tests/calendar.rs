use rustlog::calendar::{day_range, month_range, LogRange, Moment};
use rustlog::error::Error;
use std::num::IntErrorKind;

fn seconds(range: Result<LogRange, Error>) -> (i64, i64) {
    let range = range.unwrap();
    assert_eq!(range.from.nanos, 0);
    assert_eq!(range.to.nanos, 0);
    (range.from.seconds, range.to.seconds)
}

fn parse_error(range: Result<LogRange, Error>) -> IntErrorKind {
    match range {
        Err(Error::ParseInt(error)) => error.kind().clone(),
        other => panic!("{:?}", other),
    }
}

fn invalid_param(range: Result<LogRange, Error>) -> String {
    match range {
        Err(Error::InvalidParam(text)) => text,
        other => panic!("{:?}", other),
    }
}

#[test]
fn a_day_lasts_a_day() {
    assert_eq!(seconds(day_range("2024", "2", "29")), (1709164800, 1709251200));
    assert_eq!(seconds(day_range("1970", "1", "1")), (0, 86400));
    assert_eq!(seconds(day_range("1969", "12", "31")), (-86400, 0));
    assert_eq!(seconds(day_range("2000", "02", "29")), (951782400, 951868800));
}

#[test]
fn a_month_lasts_until_the_next_one() {
    assert_eq!(seconds(month_range("2024", "2")), (1706745600, 1709251200));
    assert_eq!(seconds(month_range("2023", "2")), (1675209600, 1677628800));
    assert_eq!(seconds(month_range("2023", "12")), (1701388800, 1704067200));
    assert_eq!(seconds(month_range("2024", "4")), (1711929600, 1714521600));
}

#[test]
fn a_day_lies_within_its_month() {
    let (from, to) = seconds(month_range("2024", "4"));
    for day in 1..=30 {
        let (start, end) = seconds(day_range("2024", "4", &day.to_string()));
        assert!(from <= start && end <= to);
    }
}

#[test]
fn days_follow_on() {
    let (_, end) = seconds(day_range("2024", "2", "29"));
    assert_eq!(seconds(day_range("2024", "3", "1")).0, end);
    let (_, end) = seconds(day_range("2023", "12", "31"));
    assert_eq!(seconds(day_range("2024", "1", "1")).0, end);
    let (_, end) = seconds(day_range("1900", "2", "28"));
    assert_eq!(seconds(day_range("1900", "3", "1")).0, end);
}

#[test]
fn numbers_may_have_signs_and_leading_zeros() {
    assert_eq!(
        seconds(day_range("+2024", "+02", "0029")),
        seconds(day_range("2024", "2", "29"))
    );
    assert_eq!(seconds(day_range("-1", "1", "1")), (-62198755200, -62198668800));
    assert_eq!(seconds(day_range("-0", "1", "1")), seconds(day_range("0", "1", "1")));
}

#[test]
fn texts_that_are_no_numbers_are_refused() {
    assert_eq!(parse_error(day_range("", "1", "1")), IntErrorKind::Empty);
    assert_eq!(parse_error(day_range("2024x", "1", "1")), IntErrorKind::InvalidDigit);
    assert_eq!(parse_error(day_range(" 2024", "1", "1")), IntErrorKind::InvalidDigit);
    assert_eq!(parse_error(day_range("+", "1", "1")), IntErrorKind::InvalidDigit);
    assert_eq!(parse_error(day_range("2147483648", "1", "1")), IntErrorKind::PosOverflow);
    assert_eq!(parse_error(day_range("-2147483649", "1", "1")), IntErrorKind::NegOverflow);
    assert_eq!(parse_error(month_range("2024", "-1")), IntErrorKind::InvalidDigit);
    assert_eq!(parse_error(month_range("2024", "-0")), IntErrorKind::InvalidDigit);
    assert_eq!(parse_error(month_range("2024", "4294967296")), IntErrorKind::PosOverflow);
}

#[test]
fn the_first_text_that_is_no_number_is_refused() {
    assert_eq!(parse_error(day_range("", "x", "99999999999")), IntErrorKind::Empty);
    assert_eq!(parse_error(day_range("2024", "x", "")), IntErrorKind::InvalidDigit);
    assert_eq!(parse_error(day_range("300000", "13", "")), IntErrorKind::Empty);
    assert_eq!(parse_error(month_range("x", "")), IntErrorKind::InvalidDigit);
}

#[test]
fn dates_that_do_not_exist_are_refused() {
    assert_eq!(invalid_param(day_range("2023", "2", "29")), "Invalid date");
    assert_eq!(invalid_param(day_range("1900", "2", "29")), "Invalid date");
    assert_eq!(invalid_param(day_range("2024", "4", "31")), "Invalid date");
    assert_eq!(invalid_param(day_range("2024", "1", "0")), "Invalid date");
    assert_eq!(invalid_param(day_range("262143", "1", "1")), "Invalid date");
    assert_eq!(invalid_param(day_range("-262144", "12", "31")), "Invalid date");
    assert_eq!(invalid_param(month_range("2024", "13")), "Invalid date");
    assert_eq!(invalid_param(month_range("2024", "0")), "Invalid date");
    assert_eq!(invalid_param(month_range("2147483647", "4294967295")), "Invalid date");
}

#[test]
fn the_calendar_ends() {
    assert_eq!(
        seconds(day_range("-262143", "1", "1")),
        (-8334601228800, -8334601142400)
    );
    assert_eq!(
        seconds(day_range("262142", "12", "30")),
        (8210266704000, 8210266790400)
    );
    assert_eq!(invalid_param(day_range("262142", "12", "31")), "Date out of range");
    assert!(month_range("262142", "11").is_ok());
    assert_eq!(invalid_param(month_range("262142", "12")), "Date out of range");
}

#[test]
fn moments_are_ordered() {
    let at = Moment { seconds: 10, nanos: 5 };
    assert!(at.is_before(&Moment { seconds: 11, nanos: 0 }));
    assert!(at.is_before(&Moment { seconds: 10, nanos: 6 }));
    assert!(!at.is_before(&at));
    assert!(!at.is_before(&Moment { seconds: 10, nanos: 4 }));
    assert!(!at.is_before(&Moment { seconds: 9, nanos: 9 }));
}
