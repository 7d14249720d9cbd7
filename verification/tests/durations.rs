use time_app_tracker::numfmt::{dec_string, parse_u16};
use time_app_tracker::timefmt::Time;

#[test]
fn duration_zero_minutes() {
    assert_eq!(Time::new(0).text(), "0m");
}

#[test]
fn duration_under_one_hour() {
    assert_eq!(Time::new(5).text(), "5m");
    assert_eq!(Time::new(45).text(), "45m");
    assert_eq!(Time::new(59).text(), "59m");
}

#[test]
fn duration_exact_hours() {
    assert_eq!(Time::new(60).text(), "1h");
    assert_eq!(Time::new(120).text(), "2h");
}

#[test]
fn duration_padded_minutes() {
    assert_eq!(Time::new(65).text(), "1h05");
    assert_eq!(Time::new(61).text(), "1h01");
}

#[test]
fn duration_plain_minutes() {
    assert_eq!(Time::new(75).text(), "1h15");
    assert_eq!(Time::new(1439).text(), "23h59");
}

#[test]
fn duration_splits_hours_and_minutes() {
    let t = Time::new(125);
    assert_eq!(t.hour, 2);
    assert_eq!(t.min, 5);
}

#[test]
fn decimal_rendering() {
    assert_eq!(dec_string(0), "0");
    assert_eq!(dec_string(7), "7");
    assert_eq!(dec_string(28), "28");
    assert_eq!(dec_string(65535), "65535");
    assert_eq!(dec_string(1000000), "1000000");
}

#[test]
fn parse_u16_accepts_plain_numerals() {
    assert_eq!(parse_u16("0"), Some(0));
    assert_eq!(parse_u16("28"), Some(28));
    assert_eq!(parse_u16("065"), Some(65));
    assert_eq!(parse_u16("65535"), Some(65535));
}

#[test]
fn parse_u16_rejects_bad_input() {
    assert_eq!(parse_u16(""), None);
    assert_eq!(parse_u16("65536"), None);
    assert_eq!(parse_u16("99999999999"), None);
    assert_eq!(parse_u16("12a"), None);
    assert_eq!(parse_u16("-1"), None);
    assert_eq!(parse_u16("+5"), None);
    assert_eq!(parse_u16(" 5"), None);
}
