use sitegen::date::Timestamp;

fn stamp(year: u16, month: u8, day: u8, hour: u8, minute: u8) -> Timestamp {
    Timestamp { year, month, day, hour, minute }
}

#[test]
fn parse_reads_every_field() {
    assert_eq!(Timestamp::parse("2022-01-01T10:00"), Some(stamp(2022, 1, 1, 10, 0)));
    assert_eq!(Timestamp::parse("1999-12-31T23:59"), Some(stamp(1999, 12, 31, 23, 59)));
    assert_eq!(Timestamp::parse("0005-03-09T00:07"), Some(stamp(5, 3, 9, 0, 7)));
}

#[test]
fn parse_refuses_a_date_without_time() {
    assert_eq!(Timestamp::parse("2022-13-40"), None);
    assert_eq!(Timestamp::parse("2022-01-01"), None);
}

#[test]
fn parse_refuses_a_month_or_day_that_does_not_exist() {
    assert_eq!(Timestamp::parse("2022-13-40T10:00"), None);
    assert_eq!(Timestamp::parse("2022-13-01T10:00"), None);
    assert_eq!(Timestamp::parse("2022-00-10T10:00"), None);
    assert_eq!(Timestamp::parse("2022-01-00T10:00"), None);
    assert_eq!(Timestamp::parse("2022-01-32T10:00"), None);
    assert_eq!(Timestamp::parse("2022-04-31T10:00"), None);
    assert_eq!(Timestamp::parse("2022-04-30T10:00"), Some(stamp(2022, 4, 30, 10, 0)));
}

#[test]
fn parse_knows_leap_years() {
    assert_eq!(Timestamp::parse("2024-02-29T12:00"), Some(stamp(2024, 2, 29, 12, 0)));
    assert_eq!(Timestamp::parse("2023-02-29T12:00"), None);
    assert_eq!(Timestamp::parse("2000-02-29T12:00"), Some(stamp(2000, 2, 29, 12, 0)));
    assert_eq!(Timestamp::parse("1900-02-29T12:00"), None);
}

#[test]
fn parse_refuses_an_hour_or_minute_that_does_not_exist() {
    assert_eq!(Timestamp::parse("2022-01-01T24:00"), None);
    assert_eq!(Timestamp::parse("2022-01-01T23:60"), None);
    assert_eq!(Timestamp::parse("2022-01-01T23:59"), Some(stamp(2022, 1, 1, 23, 59)));
}

#[test]
fn parse_refuses_any_other_shape() {
    assert_eq!(Timestamp::parse(""), None);
    assert_eq!(Timestamp::parse("2022-01-01 10:00"), None);
    assert_eq!(Timestamp::parse("2022-01-01t10:00"), None);
    assert_eq!(Timestamp::parse("2022/01/01T10:00"), None);
    assert_eq!(Timestamp::parse("2022-01-01T10.00"), None);
    assert_eq!(Timestamp::parse("2022-01-01T10:00:00"), None);
    assert_eq!(Timestamp::parse("2022-01-01T10:00Z"), None);
    assert_eq!(Timestamp::parse(" 2022-01-01T10:0"), None);
    assert_eq!(Timestamp::parse("2022-1-01T10:00 "), None);
    assert_eq!(Timestamp::parse("+022-01-01T10:00"), None);
    assert_eq!(Timestamp::parse("2022-01-01T1O:00"), None);
    assert_eq!(Timestamp::parse("２０２２-01-01T10:00"), None);
}

#[test]
fn format_date_pads_with_zeros() {
    assert_eq!(stamp(2022, 1, 1, 10, 0).format_date(), "2022.01.01");
    assert_eq!(stamp(1987, 11, 30, 0, 0).format_date(), "1987.11.30");
    assert_eq!(stamp(7, 3, 4, 0, 0).format_date(), "0007.03.04");
}

#[test]
fn year_label_has_four_digits() {
    assert_eq!(stamp(2022, 1, 1, 10, 0).year_label(), "2022");
    assert_eq!(stamp(999, 1, 1, 10, 0).year_label(), "0999");
    assert_eq!(stamp(0, 1, 1, 10, 0).year_label(), "0000");
    assert_eq!(stamp(9999, 12, 31, 23, 59).year_label(), "9999");
}
