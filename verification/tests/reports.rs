use time_app_tracker::dates::parse_iso_date;
use time_app_tracker::report::{app_report, day_report, ListTimeApp, Type};
use time_app_tracker::stats::Stat;
use time_app_tracker::store::{DailyRecord, Store, StoreError, TimeApp};

fn sample_date() -> time_app_tracker::dates::Date {
    parse_iso_date("2024-03-05").unwrap()
}

#[test]
fn stats_of_empty_series_are_zero() {
    let stat = Stat::new(&Vec::new());
    assert_eq!(stat.max.hour, 0);
    assert_eq!(stat.max.min, 0);
    assert_eq!(stat.min.hour, 0);
    assert_eq!(stat.min.min, 0);
    assert_eq!(stat.sum.hour, 0);
    assert_eq!(stat.sum.min, 0);
    assert_eq!(stat.mean.hour, 0);
    assert_eq!(stat.mean.min, 0);
}

#[test]
fn stats_of_a_singleton() {
    let values = vec![TimeApp::new(String::from("pc"), sample_date(), 5)];
    let stat = Stat::new(&values);
    assert_eq!(stat.max.text(), "5m");
    assert_eq!(stat.min.text(), "5m");
    assert_eq!(stat.sum.text(), "5m");
    assert_eq!(stat.mean.text(), "5m");
}

#[test]
fn stats_of_three_values() {
    let d = sample_date();
    let values = vec![
        TimeApp::new(String::from("pc"), d, 10),
        TimeApp::new(String::from("pc"), d, 20),
        TimeApp::new(String::from("pc"), d, 30),
    ];
    let stat = Stat::new(&values);
    assert_eq!(stat.max.text(), "30m");
    assert_eq!(stat.min.text(), "10m");
    assert_eq!(stat.sum.text(), "1h");
    assert_eq!(stat.mean.text(), "20m");
    assert_eq!(
        stat.text(),
        "Max : 30m\nMin : 10m\nSum : 1h\nMean: 20m"
    );
}

#[test]
fn day_view_orders_busiest_first() {
    let d = sample_date();
    let values = vec![
        TimeApp::new(String::from("pc"), d, 10),
        TimeApp::new(String::from("editor"), d, 75),
        TimeApp::new(String::from("browser"), d, 30),
    ];
    let list = ListTimeApp::new(Type::Day, values, d);
    assert_eq!(
        list.text(),
        "\tApplication time for 2024-03-05 :\neditor : 1h15\nbrowser : 30m\npc : 10m\n"
    );
}

#[test]
fn day_report_from_store() {
    let mut s = Store::new();
    s.add_app("editor").unwrap();
    let d = sample_date();
    s.increment_time(d, &vec![true, true]);
    let text = day_report(&s, d);
    assert_eq!(
        text,
        "\tApplication time for 2024-03-05 :\npc : 1m\neditor : 1m\n"
    );
}

#[test]
fn app_report_lists_days_and_stats() {
    let anchor = sample_date();
    let columns = vec![String::from("pc")];
    let rows = vec![
        DailyRecord { date: anchor, values: vec![75] },
        DailyRecord { date: parse_iso_date("2024-03-04").unwrap(), values: vec![60] },
    ];
    let s = Store::from_parts(columns, rows, Vec::new(), Vec::new()).unwrap();
    let text = app_report(&s, "pc", anchor, 2, false).unwrap();
    assert_eq!(
        text,
        "\tTime for pc :\n2024-03-05 : 1h15\n2024-03-04 : 1h\n2024-03-03 : 0m\n\n\tStats of time for pc :\nMax : 1h15\nMin : 0m\nSum : 2h15\nMean: 45m\n"
    );
}

#[test]
fn app_report_can_reverse() {
    let anchor = sample_date();
    let columns = vec![String::from("pc")];
    let rows = vec![DailyRecord { date: anchor, values: vec![30] }];
    let s = Store::from_parts(columns, rows, Vec::new(), Vec::new()).unwrap();
    let text = app_report(&s, "pc", anchor, 1, true).unwrap();
    assert_eq!(
        text,
        "\tTime for pc :\n2024-03-04 : 0m\n2024-03-05 : 30m\n\n\tStats of time for pc :\nMax : 30m\nMin : 0m\nSum : 30m\nMean: 15m\n"
    );
}

#[test]
fn app_report_requires_a_tracked_app() {
    let s = Store::new();
    assert_eq!(
        app_report(&s, "editor", sample_date(), 2, false).unwrap_err(),
        StoreError::NotFound
    );
}
