use chrono::Datelike;
use time_app_tracker::dates::{
    get_value_or_default, parse_iso_date, weekday_to_date, Date, TypeRequest, DAY_MAX, DAY_MIN,
};

fn day_number(y: i32, m: u32, d: u32) -> i32 {
    chrono::NaiveDate::from_ymd_opt(y, m, d)
        .unwrap()
        .num_days_from_ce()
}

#[test]
fn parse_agrees_with_chrono() {
    let dt = parse_iso_date("2024-02-29").unwrap();
    assert_eq!(dt.days, day_number(2024, 2, 29));
    let dt = parse_iso_date("1999-09-03").unwrap();
    assert_eq!(dt.days, day_number(1999, 9, 3));
    let dt = parse_iso_date("0001-01-01").unwrap();
    assert_eq!(dt.days, DAY_MIN);
    let dt = parse_iso_date("9999-12-31").unwrap();
    assert_eq!(dt.days, DAY_MAX);
}

#[test]
fn parse_rejects_bad_dates() {
    assert!(parse_iso_date("2023-04-31").is_none());
    assert!(parse_iso_date("2023-02-29").is_none());
    assert!(parse_iso_date("2023-00-10").is_none());
    assert!(parse_iso_date("2023-13-01").is_none());
    assert!(parse_iso_date("0000-05-05").is_none());
    assert!(parse_iso_date("2023-4-31").is_none());
    assert!(parse_iso_date("23-04-01").is_none());
    assert!(parse_iso_date("2023/04/01").is_none());
    assert!(parse_iso_date("").is_none());
    assert!(parse_iso_date("not a date").is_none());
}

#[test]
fn date_renders_as_iso() {
    let dt = parse_iso_date("2024-03-05").unwrap();
    assert_eq!(dt.text(), "2024-03-05");
    let dt = parse_iso_date("0001-01-01").unwrap();
    assert_eq!(dt.text(), "0001-01-01");
    let dt = parse_iso_date("0987-12-01").unwrap();
    assert_eq!(dt.text(), "0987-12-01");
}

#[test]
fn month_day_label() {
    let dt = parse_iso_date("2024-03-05").unwrap();
    assert_eq!(dt.month_day_text(), "03-05");
}

#[test]
fn render_parse_round_trip() {
    for days in [DAY_MIN, 700000, 738000, 738918, DAY_MAX] {
        let dt = Date { days };
        let back = parse_iso_date(&dt.text()).unwrap();
        assert_eq!(back.days, days);
    }
}

#[test]
fn weekday_agrees_with_chrono() {
    for (y, m, d) in [(1970, 1, 1), (2024, 3, 5), (2000, 2, 29), (1, 1, 1)] {
        let nd = chrono::NaiveDate::from_ymd_opt(y, m, d).unwrap();
        let dt = Date {
            days: nd.num_days_from_ce(),
        };
        assert_eq!(
            dt.weekday() as u32,
            nd.weekday().num_days_from_monday(),
            "weekday of {y}-{m}-{d}"
        );
        assert_eq!(dt.weekday_name(), format!("{}", nd.weekday()));
    }
}

#[test]
fn date_stepping_is_clamped() {
    let dt = parse_iso_date("2024-02-28").unwrap();
    assert_eq!(dt.next_day().text(), "2024-02-29");
    assert_eq!(dt.prev_day().text(), "2024-02-27");
    let top = Date { days: DAY_MAX };
    assert_eq!(top.next_day().days, DAY_MAX);
    let bottom = Date { days: DAY_MIN };
    assert_eq!(bottom.prev_day().days, DAY_MIN);
}

#[test]
fn most_recent_past_weekday() {
    // 2024-03-05 was a Tuesday.
    let today = parse_iso_date("2024-03-05").unwrap();
    assert_eq!(weekday_to_date(0, today).text(), "2024-03-04"); // Monday
    assert_eq!(weekday_to_date(1, today).text(), "2024-02-27"); // a full week back
    assert_eq!(weekday_to_date(6, today).text(), "2024-03-03"); // Sunday
}

#[test]
fn request_defaults() {
    let today = parse_iso_date("2024-03-05").unwrap();
    let (d, n) = get_value_or_default(TypeRequest::Day, None, 0, today);
    assert_eq!(d.days, today.days);
    assert_eq!(n, 1);
    let (d, n) = get_value_or_default(TypeRequest::App, None, 0, today);
    assert_eq!(d.days, today.days);
    assert_eq!(n, 10);
    let (_, n) = get_value_or_default(TypeRequest::App, None, 4, today);
    assert_eq!(n, 4);
}

#[test]
fn request_keywords() {
    let today = parse_iso_date("2024-03-05").unwrap();
    let (d, _) = get_value_or_default(TypeRequest::Day, Some(String::from("Yesterday")), 0, today);
    assert_eq!(d.text(), "2024-03-04");
    let (d, _) = get_value_or_default(TypeRequest::Day, Some(String::from("t")), 0, today);
    assert_eq!(d.days, today.days);
    let (d, _) = get_value_or_default(TypeRequest::Day, Some(String::from("FRIDAY")), 0, today);
    assert_eq!(d.text(), "2024-03-01");
    let (d, n) = get_value_or_default(TypeRequest::App, Some(String::from("last_week")), 0, today);
    assert_eq!(d.text(), "2024-03-03");
    assert_eq!(n, 7);
    let (d, n) = get_value_or_default(TypeRequest::Day, Some(String::from("lw")), 0, today);
    assert_eq!(d.text(), "2024-03-03");
    assert_eq!(n, 1);
}

#[test]
fn request_explicit_and_fallback_dates() {
    let today = parse_iso_date("2024-03-05").unwrap();
    let (d, _) = get_value_or_default(
        TypeRequest::Day,
        Some(String::from("2023-12-31")),
        0,
        today,
    );
    assert_eq!(d.text(), "2023-12-31");
    let (d, _) = get_value_or_default(TypeRequest::Day, Some(String::from("gibberish")), 0, today);
    assert_eq!(d.days, today.days);
    let (d, _) = get_value_or_default(
        TypeRequest::Day,
        Some(String::from("2023-02-29")),
        0,
        today,
    );
    assert_eq!(d.days, today.days);
}
