use log_roll::{file_name, format_record, must_roll, now_utc, terminate_line, CalDate, LogState, LogType, Stamp};

fn date(year: i32, month: u32, day: u32) -> CalDate {
    CalDate { year, month, day }
}

#[test]
fn file_name_is_dated() {
    assert_eq!(file_name("svc", date(2024, 1, 1)), "svc_2024-01-01.log");
    assert_eq!(file_name("log_roll_test", date(2023, 12, 31)), "log_roll_test_2023-12-31.log");
}

#[test]
fn file_name_pads_short_years() {
    assert_eq!(file_name("a", date(7, 3, 9)), "a_0007-03-09.log");
    assert_eq!(file_name("a", date(-5, 10, 20)), "a_-005-10-20.log");
    assert_eq!(file_name("a", date(12345, 2, 28)), "a_12345-02-28.log");
}

#[test]
fn distinct_dates_give_distinct_names() {
    assert_ne!(file_name("svc", date(2024, 1, 1)), file_name("svc", date(2024, 1, 2)));
    assert_ne!(file_name("svc", date(2024, 1, 1)), file_name("svc", date(2025, 1, 1)));
}

#[test]
fn newline_is_added_once() {
    assert_eq!(terminate_line("hello"), "hello\n");
    assert_eq!(terminate_line("hello\n"), "hello\n");
    assert_eq!(terminate_line(""), "\n");
    assert_eq!(terminate_line("a\nb"), "a\nb\n");
}

#[test]
fn level_tokens_follow_timestamp() {
    let ts = "2024-01-01T00:00:00+00:00";
    assert_eq!(format_record(ts, LogType::Info, "x"), "2024-01-01T00:00:00+00:00 INFO x\n");
    assert_eq!(format_record(ts, LogType::Warn, "x"), "2024-01-01T00:00:00+00:00 WARN x\n");
    assert_eq!(format_record(ts, LogType::Erro, "x"), "2024-01-01T00:00:00+00:00 ERRO x\n");
    assert!(!format_record(ts, LogType::Erro, "x").contains("ERROR"));
    assert_eq!(LogType::Warn.as_str(), "WARN");
}

#[test]
fn record_keeps_trailing_newline() {
    let ts = "2024-01-01T00:00:00+00:00";
    assert_eq!(format_record(ts, LogType::Info, "hello\n"), "2024-01-01T00:00:00+00:00 INFO hello\n");
    assert_eq!(format_record(ts, LogType::Info, "a\nb"), "2024-01-01T00:00:00+00:00 INFO a\nb\n");
}

#[test]
fn roll_decision() {
    let d = date(2024, 1, 1);
    assert!(must_roll(None, d));
    assert!(!must_roll(Some(d), d));
    assert!(must_roll(Some(d), date(2024, 1, 2)));
    assert!(must_roll(Some(date(2024, 1, 2)), d));
}

#[test]
fn same_day_creates_one_file() {
    let d = date(2024, 5, 6);
    let mut s = LogState::new("app", "/logs");
    assert_eq!(s.file_date(), None);
    assert_eq!(s.rotation_target(d), Some("app_2024-05-06.log".to_string()));
    s.commit(d);
    for _ in 0..5 {
        assert_eq!(s.rotation_target(d), None);
        assert_eq!(s.file_date(), Some(d));
    }
}

#[test]
fn next_day_rolls_to_new_file() {
    let d1 = date(2024, 2, 28);
    let d2 = date(2024, 2, 29);
    let mut s = LogState::new("app", "/logs");
    s.commit(d1);
    let target = s.rotation_target(d2);
    assert_eq!(target, Some("app_2024-02-29.log".to_string()));
    assert_ne!(target, Some(file_name("app", d1)));
    s.commit(d2);
    assert_eq!(s.rotation_target(d2), None);
    assert_eq!(s.file_date(), Some(d2));
    assert_eq!(s.app_name(), "app");
    assert_eq!(s.log_dir(), "/logs");
}

#[test]
fn end_to_end_lines() {
    let d = date(2024, 1, 1);
    let mut s = LogState::new("svc", "empty");
    assert_eq!(s.rotation_target(d), Some("svc_2024-01-01.log".to_string()));
    s.commit(d);
    let ts = "2024-01-01T08:30:00.123456789+00:00";
    let mut lines = String::new();
    let calls = [(LogType::Info, "start"), (LogType::Warn, "low disk"), (LogType::Erro, "crash")];
    for (level, msg) in calls {
        assert_eq!(s.rotation_target(d), None);
        lines.push_str(&format_record(ts, level, msg));
    }
    let got: Vec<&str> = lines.lines().collect();
    assert_eq!(got.len(), 3);
    assert_eq!(got[0], "2024-01-01T08:30:00.123456789+00:00 INFO start");
    assert_eq!(got[1], "2024-01-01T08:30:00.123456789+00:00 WARN low disk");
    assert_eq!(got[2], "2024-01-01T08:30:00.123456789+00:00 ERRO crash");
}

#[test]
fn clock_reading_is_rfc3339_on_its_date() {
    let st = now_utc().unwrap();
    let now = chrono::Utc::now().date_naive();
    let seen = chrono::NaiveDate::from_ymd_opt(st.date.year, st.date.month, st.date.day).unwrap();
    assert!((0..=1).contains(&(now - seen).num_days()));
    let parsed = chrono::DateTime::parse_from_rfc3339(&st.text).unwrap();
    assert_eq!(parsed.date_naive(), seen);
    assert!(st.text.ends_with("+00:00"));
    let name = file_name("x", st.date);
    assert_eq!(&st.text[..10], &name[2..12]);
    assert_eq!(&st.text[10..11], "T");
}

#[test]
fn prepare_stamps_line_and_names_first_file() {
    let s = LogState::new("svc", "dir");
    let (st, target, line) = s.prepare(LogType::Info, "hello").unwrap();
    assert_eq!(target, Some(file_name("svc", st.date)));
    assert_eq!(line, format!("{} INFO hello\n", st.text));
    let (_, _, line2) = s.prepare(LogType::Warn, "hello\n").unwrap();
    assert!(line2.ends_with(" WARN hello\n"));
    assert!(!line2.ends_with("\n\n"));
}

#[test]
fn prepare_after_commit_keeps_file() {
    let mut s = LogState::new("svc", "dir");
    let (st, _, _) = s.prepare(LogType::Info, "a").unwrap();
    s.commit(st.date);
    let (st2, target, _) = s.prepare(LogType::Erro, "b").unwrap();
    if st2.date == st.date {
        assert_eq!(target, None);
    } else {
        assert_eq!(target, Some(file_name("svc", st2.date)));
    }
}

#[test]
fn stamp_carries_date_and_text() {
    let st = Stamp { date: CalDate { year: 2024, month: 1, day: 1 }, text: "2024-01-01T00:00:00+00:00".to_string() };
    let line = format_record(&st.text, LogType::Info, "start");
    assert!(line.starts_with("2024-01-01T"));
    assert_eq!(line, "2024-01-01T00:00:00+00:00 INFO start\n");
}
