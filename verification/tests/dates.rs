use seismology::error::StationError;
use seismology::numbers::IntErrorKind;
use seismology::station_xml::parse_to_date_time;
use seismology::time::UtcDateTime;

fn at(y: i32, mo: u32, d: u32, h: u32, mi: u32, s: u32) -> UtcDateTime {
    UtcDateTime::from_ymd_hms(y, mo, d, h, mi, s).unwrap()
}

#[test]
fn parse_date_midnight() {
    assert_eq!(
        parse_to_date_time("2020-09-23T00:00:00.0000").unwrap(),
        at(2020, 9, 23, 0, 0, 0)
    );
}

#[test]
fn parse_date_other_day() {
    assert_eq!(
        parse_to_date_time("2025-03-23T00:00:00.0000").unwrap(),
        at(2025, 3, 23, 0, 0, 0)
    );
}

#[test]
fn parse_date_with_time_of_day() {
    assert_eq!(
        parse_to_date_time("2020-09-23T01:02:03.0000").unwrap(),
        at(2020, 9, 23, 1, 2, 3)
    );
}

#[test]
fn parse_date_fraction_is_scaled_to_microseconds() {
    let t = parse_to_date_time("2026-05-29T05:51:16.9508").unwrap();
    assert_eq!(t, at(2026, 5, 29, 5, 51, 16).with_microsecond(950800));
    let t = parse_to_date_time("2026-05-29T05:51:16.123456").unwrap();
    assert_eq!(t.microsecond, 123456);
}

#[test]
fn parse_date_too_many_fraction_digits() {
    match parse_to_date_time("2020-09-23T00:00:00.1234567") {
        Err(StationError::ToManySeconds { number_digits }) => assert_eq!(number_digits, 7),
        _ => panic!("expected too many digits"),
    }
}

#[test]
fn parse_date_without_fraction_is_invalid() {
    assert!(matches!(
        parse_to_date_time("2020-09-23T00:00:00"),
        Err(StationError::InvalidTimeFormat)
    ));
}

#[test]
fn parse_date_bad_year_digit() {
    assert!(matches!(
        parse_to_date_time("20x0-09-23T00:00:00.0"),
        Err(StationError::ParseIntError(IntErrorKind::InvalidDigit))
    ));
}

#[test]
fn parse_date_empty_fraction() {
    assert!(matches!(
        parse_to_date_time("2020-09-23T00:00:00."),
        Err(StationError::ParseIntError(IntErrorKind::Empty))
    ));
}

#[test]
fn civil_time_rejects_impossible_days() {
    assert!(UtcDateTime::from_ymd_hms(2021, 2, 29, 0, 0, 0).is_none());
    assert!(UtcDateTime::from_ymd_hms(2020, 2, 29, 0, 0, 0).is_some());
    assert!(UtcDateTime::from_ymd_hms(1900, 2, 29, 0, 0, 0).is_none());
    assert!(UtcDateTime::from_ymd_hms(2000, 2, 29, 0, 0, 0).is_some());
    assert!(UtcDateTime::from_ymd_hms(2020, 4, 31, 0, 0, 0).is_none());
    assert!(UtcDateTime::from_ymd_hms(2020, 1, 1, 24, 0, 0).is_none());
    assert!(UtcDateTime::from_ymd_hms(2020, 1, 1, 0, 0, 60).is_none());
    assert!(UtcDateTime::from_ymd_hms(262143, 1, 1, 0, 0, 0).is_none());
}
