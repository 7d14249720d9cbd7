use time_app_tracker::dates::parse_iso_date;
use time_app_tracker::store::{format_query, DailyRecord, Store, StoreError};

#[test]
fn fresh_store_tracks_only_the_session() {
    let s = Store::new();
    let cols = s.get_column_name();
    assert_eq!(cols.len(), 1);
    assert_eq!(cols[0], "pc");
    assert!(s.contain_names("pc"));
    assert!(!s.contain_names("editor"));
}

#[test]
fn add_then_remove_restores_columns() {
    let mut s = Store::new();
    s.add_app("editor").unwrap();
    let before = s.get_column_name();
    s.add_app("browser").unwrap();
    assert!(s.contain_names("browser"));
    s.del_app("browser").unwrap();
    assert_eq!(s.get_column_name(), before);
}

#[test]
fn add_duplicate_fails() {
    let mut s = Store::new();
    s.add_app("editor").unwrap();
    assert_eq!(s.add_app("editor"), Err(StoreError::DuplicateColumn));
    assert_eq!(s.add_app("pc"), Err(StoreError::DuplicateColumn));
    assert_eq!(s.add_app("date"), Err(StoreError::DuplicateColumn));
}

#[test]
fn remove_unknown_or_protected_fails() {
    let mut s = Store::new();
    assert_eq!(s.del_app("editor"), Err(StoreError::UnknownColumn));
    assert_eq!(s.del_app("pc"), Err(StoreError::ProtectedColumn));
    assert_eq!(s.del_app("date"), Err(StoreError::ProtectedColumn));
}

#[test]
fn removing_an_app_drops_its_threshold() {
    let mut s = Store::new();
    s.add_app("editor").unwrap();
    s.add_notif("editor", 90).unwrap();
    s.del_app("editor").unwrap();
    let report = s.notif_report();
    assert_eq!(report, "List of notifications :\n\n");
}

#[test]
fn settings_change_and_defaults() {
    let mut s = Store::new();
    let st = s.get_settings();
    assert_eq!(st.state, "on");
    assert_eq!(st.storage_size, 28);
    s.change_settings("storage_size", "14");
    s.change_settings("state", "off");
    let st = s.get_settings();
    assert_eq!(st.state, "off");
    assert_eq!(st.storage_size, 14);
    s.change_settings("storage_size", "oops");
    assert_eq!(s.get_settings().storage_size, 28);
    assert_eq!(
        st.text(),
        "\tSettings :\nState : off\nStorage size : 14"
    );
}

#[test]
fn switch_state_flips_only_an_explicit_on() {
    let mut s = Store::new();
    // No stored state: the switch stores an explicit `on`.
    s.switch_state();
    assert_eq!(s.get_settings().state, "on");
    s.switch_state();
    assert_eq!(s.get_settings().state, "off");
    s.switch_state();
    assert_eq!(s.get_settings().state, "on");
}

#[test]
fn thresholds_require_a_tracked_app() {
    let mut s = Store::new();
    assert_eq!(s.add_notif("editor", 30), Err(StoreError::NotFound));
    s.add_app("editor").unwrap();
    s.add_notif("editor", 30).unwrap();
    s.add_notif("editor", 45).unwrap();
    assert_eq!(
        s.notif_report(),
        "List of notifications :\neditor => 45m\n\n"
    );
    s.del_notif("editor");
    assert_eq!(s.notif_report(), "List of notifications :\n\n");
}

#[test]
fn sample_tick_counts_active_apps_and_the_session() {
    let mut s = Store::new();
    s.add_app("editor").unwrap();
    s.add_app("browser").unwrap();
    let today = parse_iso_date("2024-03-05").unwrap();
    // Only the editor reports active; the session counts regardless.
    let active = vec![false, true, false];
    s.increment_time(today, &active);
    assert_eq!(s.get_values(today), vec![1, 1, 0]);
    s.increment_time(today, &active);
    assert_eq!(s.get_values(today), vec![2, 2, 0]);
}

#[test]
fn sample_tick_fires_an_alert_exactly_at_the_threshold() {
    let mut s = Store::new();
    s.add_app("editor").unwrap();
    s.add_notif("editor", 2).unwrap();
    let today = parse_iso_date("2024-03-05").unwrap();
    let active = vec![true, true];
    let alerts = s.increment_time(today, &active);
    assert!(alerts.is_empty());
    let alerts = s.increment_time(today, &active);
    assert_eq!(alerts.len(), 1);
    assert_eq!(alerts[0].app, "editor");
    assert_eq!(alerts[0].duration, "2m");
    let alerts = s.increment_time(today, &active);
    assert!(alerts.is_empty());
}

#[test]
fn purge_keeps_the_boundary_row() {
    let today = parse_iso_date("2024-03-05").unwrap();
    let at_28 = parse_iso_date("2024-02-06").unwrap();
    let at_29 = parse_iso_date("2024-02-05").unwrap();
    let columns = vec![String::from("pc")];
    let rows = vec![
        DailyRecord { date: at_29, values: vec![9] },
        DailyRecord { date: at_28, values: vec![7] },
        DailyRecord { date: today, values: vec![3] },
    ];
    let mut s = Store::from_parts(columns, rows, Vec::new(), Vec::new()).unwrap();
    s.change_settings("storage_size", "28");
    s.delete_old_data(today);
    assert_eq!(s.get_values(at_29), vec![0]);
    assert_eq!(s.get_values(at_28), vec![7]);
    assert_eq!(s.get_values(today), vec![3]);
    assert_eq!(s.rows.len(), 2);
}

#[test]
fn update_does_nothing_while_off() {
    let mut s = Store::new();
    s.change_settings("state", "off");
    let today = parse_iso_date("2024-03-05").unwrap();
    let alerts = s.update(today, &vec![true]);
    assert!(alerts.is_empty());
    assert_eq!(s.rows.len(), 0);
}

#[test]
fn update_purges_and_ticks_while_on() {
    let today = parse_iso_date("2024-03-05").unwrap();
    let stale = parse_iso_date("2024-01-01").unwrap();
    let columns = vec![String::from("pc")];
    let rows = vec![DailyRecord { date: stale, values: vec![50] }];
    let mut s = Store::from_parts(columns, rows, Vec::new(), Vec::new()).unwrap();
    s.update(today, &vec![false]);
    assert_eq!(s.rows.len(), 1);
    assert_eq!(s.get_values(today), vec![1]);
    assert_eq!(s.get_values(stale), vec![0]);
}

#[test]
fn gap_filled_series_ends_at_the_anchor() {
    let anchor = parse_iso_date("2024-03-05").unwrap();
    let two_back = parse_iso_date("2024-03-03").unwrap();
    let columns = vec![String::from("pc")];
    let rows = vec![
        DailyRecord { date: anchor, values: vec![11] },
        DailyRecord { date: two_back, values: vec![22] },
    ];
    let s = Store::from_parts(columns, rows, Vec::new(), Vec::new()).unwrap();
    let series = s.get_time_app("pc", anchor, 3).unwrap();
    assert_eq!(series.len(), 4);
    let dates: Vec<String> = series.iter().map(|e| e.date.text()).collect();
    assert_eq!(dates, vec!["2024-03-05", "2024-03-04", "2024-03-03", "2024-03-02"]);
    let minutes: Vec<u16> = series.iter().map(|e| e.min_total).collect();
    assert_eq!(minutes, vec![11, 0, 22, 0]);
    assert!(series.iter().all(|e| e.name == "pc"));
    assert_eq!(
        s.get_time_app("editor", anchor, 3).unwrap_err(),
        StoreError::NotFound
    );
}

#[test]
fn day_query_synthesizes_zeroes_in_registry_order() {
    let mut s = Store::new();
    s.add_app("editor").unwrap();
    s.add_app("browser").unwrap();
    let empty_day = parse_iso_date("2024-03-01").unwrap();
    let entries = s.get_time_day(empty_day);
    assert_eq!(entries.len(), 3);
    let names: Vec<&str> = entries.iter().map(|e| e.name.as_str()).collect();
    assert_eq!(names, vec!["pc", "editor", "browser"]);
    assert!(entries.iter().all(|e| e.min_total == 0));
}

#[test]
fn insert_statement_text() {
    let names = vec![String::from("pc"), String::from("editor")];
    let values = vec![5, 0];
    assert_eq!(
        format_query(names, values),
        "INSERT INTO time (date, [pc],[editor]) VALUES (CURRENT_DATE, 5,0)"
    );
    assert_eq!(
        format_query(vec![String::from("pc")], vec![65535]),
        "INSERT INTO time (date, [pc]) VALUES (CURRENT_DATE, 65535)"
    );
}

#[test]
fn loader_rejects_malformed_parts() {
    let day = parse_iso_date("2024-03-05").unwrap();
    // first column must be the session
    assert!(Store::from_parts(vec![String::from("editor")], Vec::new(), Vec::new(), Vec::new())
        .is_none());
    // duplicate columns
    assert!(Store::from_parts(
        vec![String::from("pc"), String::from("a"), String::from("a")],
        Vec::new(),
        Vec::new(),
        Vec::new()
    )
    .is_none());
    // row width must match the registry
    assert!(Store::from_parts(
        vec![String::from("pc")],
        vec![DailyRecord { date: day, values: vec![1, 2] }],
        Vec::new(),
        Vec::new()
    )
    .is_none());
    // duplicate dates
    assert!(Store::from_parts(
        vec![String::from("pc")],
        vec![
            DailyRecord { date: day, values: vec![1] },
            DailyRecord { date: day, values: vec![2] },
        ],
        Vec::new(),
        Vec::new()
    )
    .is_none());
    // a valid one loads
    assert!(Store::from_parts(
        vec![String::from("pc")],
        vec![DailyRecord { date: day, values: vec![1] }],
        vec![(String::from("state"), String::from("on"))],
        vec![(String::from("pc"), 60)]
    )
    .is_some());
}
