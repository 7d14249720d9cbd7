use time_app_tracker::browser::{Browser, EditField, InputMode, KeyPress, Mode};
use time_app_tracker::dates::parse_iso_date;
use time_app_tracker::store::{DailyRecord, Store};

fn today() -> time_app_tracker::dates::Date {
    parse_iso_date("2024-03-05").unwrap()
}

fn store_with_bars(n: usize) -> Store {
    let columns = vec![String::from("pc")];
    let mut rows = Vec::new();
    let anchor = today();
    for i in 0..n {
        rows.push(DailyRecord {
            date: time_app_tracker::dates::Date { days: anchor.days - i as i32 },
            values: vec![(10 + i) as u16],
        });
    }
    Store::from_parts(columns, rows, Vec::new(), Vec::new()).unwrap()
}

fn press(b: &mut Browser, s: &Store, key: KeyPress) {
    b.handle_key_event(s, key, today());
}

#[test]
fn initial_state() {
    let s = Store::new();
    let b = Browser::new(&s, today());
    assert_eq!(b.mode, Mode::Day);
    assert_eq!(b.input_mode, InputMode::Normal);
    assert!(!b.show_help);
    assert!(!b.exit);
    assert_eq!(b.option_day.date.days, today().days);
    assert_eq!(b.option_app.app, "pc");
    assert_eq!(b.option_app.number, 7);
}

#[test]
fn mode_toggle_and_quit() {
    let s = Store::new();
    let mut b = Browser::new(&s, today());
    press(&mut b, &s, KeyPress::Character('m'));
    assert_eq!(b.mode, Mode::App);
    press(&mut b, &s, KeyPress::Character('m'));
    assert_eq!(b.mode, Mode::Day);
    press(&mut b, &s, KeyPress::Character('q'));
    assert!(b.exit);
}

#[test]
fn help_overlay_swallows_keys() {
    let s = Store::new();
    let mut b = Browser::new(&s, today());
    press(&mut b, &s, KeyPress::Character('?'));
    assert!(b.show_help);
    press(&mut b, &s, KeyPress::Character('m'));
    assert!(b.show_help);
    assert_eq!(b.mode, Mode::Day);
    press(&mut b, &s, KeyPress::Escape);
    assert!(!b.show_help);
    assert!(!b.exit);
}

#[test]
fn date_stepping_and_today_jump() {
    let s = Store::new();
    let mut b = Browser::new(&s, today());
    press(&mut b, &s, KeyPress::Up);
    assert_eq!(b.option_day.date.text(), "2024-03-06");
    press(&mut b, &s, KeyPress::Down);
    press(&mut b, &s, KeyPress::Character('j'));
    assert_eq!(b.option_day.date.text(), "2024-03-04");
    press(&mut b, &s, KeyPress::Character('t'));
    assert_eq!(b.option_day.date.days, today().days);
}

#[test]
fn date_edit_commits_a_valid_date() {
    let s = Store::new();
    let mut b = Browser::new(&s, today());
    press(&mut b, &s, KeyPress::Character('d'));
    assert_eq!(b.input_mode, InputMode::Editing(EditField::Date));
    assert_eq!(b.buffer, "2024-03-05");
    for _ in 0..10 {
        press(&mut b, &s, KeyPress::Backspace);
    }
    for c in "2024-01-15".chars() {
        press(&mut b, &s, KeyPress::Character(c));
    }
    press(&mut b, &s, KeyPress::Enter);
    assert_eq!(b.input_mode, InputMode::Normal);
    assert_eq!(b.buffer, "");
    assert_eq!(b.option_day.date.text(), "2024-01-15");
}

#[test]
fn date_edit_keeps_the_old_value_on_bad_input() {
    let s = Store::new();
    let mut b = Browser::new(&s, today());
    press(&mut b, &s, KeyPress::Character('d'));
    for _ in 0..10 {
        press(&mut b, &s, KeyPress::Backspace);
    }
    for c in "2024-02-30".chars() {
        press(&mut b, &s, KeyPress::Character(c));
    }
    press(&mut b, &s, KeyPress::Enter);
    assert_eq!(b.option_day.date.days, today().days);
}

#[test]
fn date_edit_cancel_discards_the_buffer() {
    let s = Store::new();
    let mut b = Browser::new(&s, today());
    press(&mut b, &s, KeyPress::Character('d'));
    press(&mut b, &s, KeyPress::Character('x'));
    press(&mut b, &s, KeyPress::Escape);
    assert_eq!(b.input_mode, InputMode::Normal);
    assert_eq!(b.buffer, "");
    assert_eq!(b.option_day.date.days, today().days);
}

#[test]
fn count_edit_parses_or_keeps() {
    let s = Store::new();
    let mut b = Browser::new(&s, today());
    press(&mut b, &s, KeyPress::Character('m'));
    press(&mut b, &s, KeyPress::Character('n'));
    assert_eq!(b.input_mode, InputMode::Editing(EditField::Count));
    for c in "14".chars() {
        press(&mut b, &s, KeyPress::Character(c));
    }
    press(&mut b, &s, KeyPress::Enter);
    assert_eq!(b.option_app.number, 14);
    press(&mut b, &s, KeyPress::Character('n'));
    for c in "not a number".chars() {
        press(&mut b, &s, KeyPress::Character(c));
    }
    press(&mut b, &s, KeyPress::Enter);
    assert_eq!(b.option_app.number, 14);
}

#[test]
fn app_edit_accepts_only_tracked_names() {
    let mut s = Store::new();
    s.add_app("editor").unwrap();
    let mut b = Browser::new(&s, today());
    press(&mut b, &s, KeyPress::Character('m'));
    press(&mut b, &s, KeyPress::Character('a'));
    for c in "editor".chars() {
        press(&mut b, &s, KeyPress::Character(c));
    }
    press(&mut b, &s, KeyPress::Enter);
    assert_eq!(b.option_app.app, "editor");
    press(&mut b, &s, KeyPress::Character('a'));
    for c in "unknown".chars() {
        press(&mut b, &s, KeyPress::Character(c));
    }
    press(&mut b, &s, KeyPress::Enter);
    assert_eq!(b.option_app.app, "editor");
}

#[test]
fn windowing_never_exposes_an_index_past_the_data() {
    // 20 bars; a 36-column budget gives 5-wide bars and a page of
    // exactly 6.
    let s = store_with_bars(20);
    let mut b = Browser::new(&s, today());
    press(&mut b, &s, KeyPress::Character('m'));
    b.option_app.number = 19;
    for steps in 0..40 {
        let model = b.chart_model(&s, 36);
        assert_eq!(model.bars.len(), 20);
        assert_eq!(model.bar_width, 5);
        assert_eq!(model.end - model.start + 1, 6);
        assert!(model.end < 20, "window ran past the data at step {steps}");
        assert_eq!(model.more_left, model.start > 0);
        assert_eq!(model.more_right, model.end < 19);
        press(&mut b, &s, KeyPress::Right);
    }
    // Fully scrolled: the window sits at the right edge and only the
    // left indicator shows.
    let model = b.chart_model(&s, 36);
    assert_eq!((model.start, model.end), (14, 19));
    assert!(model.more_left);
    assert!(!model.more_right);
    // And scrolling all the way back hides the left indicator again.
    for _ in 0..40 {
        press(&mut b, &s, KeyPress::Left);
    }
    let model = b.chart_model(&s, 36);
    assert_eq!((model.start, model.end), (0, 5));
    assert!(!model.more_left);
    assert!(model.more_right);
}

#[test]
fn chart_bars_follow_the_series() {
    let s = store_with_bars(3);
    let mut b = Browser::new(&s, today());
    press(&mut b, &s, KeyPress::Character('m'));
    b.option_app.number = 2;
    let model = b.chart_model(&s, 80);
    // Most recent first: today's 10, then 11, then 12.
    let values: Vec<u16> = model.bars.iter().map(|bar| bar.value).collect();
    assert_eq!(values, vec![10, 11, 12]);
    let labels: Vec<&str> = model.bars.iter().map(|bar| bar.label.as_str()).collect();
    assert_eq!(labels, vec!["03-05", "03-04", "03-03"]);
    let texts: Vec<&str> = model.bars.iter().map(|bar| bar.text.as_str()).collect();
    assert_eq!(texts, vec!["10m", "11m", "12m"]);
    assert_eq!(model.max_value, 12);
    press(&mut b, &s, KeyPress::Character('r'));
    let model = b.chart_model(&s, 80);
    let values: Vec<u16> = model.bars.iter().map(|bar| bar.value).collect();
    assert_eq!(values, vec![12, 11, 10]);
}

#[test]
fn day_chart_sorts_by_duration() {
    let mut s = Store::new();
    s.add_app("editor").unwrap();
    s.add_app("browser").unwrap();
    let d = today();
    s.increment_time(d, &vec![true, true, true]);
    s.increment_time(d, &vec![false, true, false]);
    let mut b = Browser::new(&s, d);
    let model = b.chart_model(&s, 80);
    let pairs: Vec<(&str, u16)> = model
        .bars
        .iter()
        .map(|bar| (bar.label.as_str(), bar.value))
        .collect();
    assert_eq!(pairs, vec![("pc", 2), ("editor", 2), ("browser", 1)]);
}

#[test]
fn stats_strip_matches_the_series() {
    let s = store_with_bars(3);
    let mut b = Browser::new(&s, today());
    press(&mut b, &s, KeyPress::Character('m'));
    b.option_app.number = 2;
    let stat = b.stats(&s);
    assert_eq!(stat.max.text(), "12m");
    assert_eq!(stat.min.text(), "10m");
    assert_eq!(stat.sum.text(), "33m");
    assert_eq!(stat.mean.text(), "11m");
}
