use yascan::events::{
    event_line, EventType, LogEvent, LogLevel, TuiMessage, UtcTimestamp, MAX_UTC_SECONDS, MIN_UTC_SECONDS};

fn ts(secs: i64) -> UtcTimestamp {
    UtcTimestamp::from_unix_seconds(secs).unwrap()
}

fn event(event_type: EventType) -> LogEvent {
    LogEvent {
        timestamp: ts(0),
        level: LogLevel::Info,
        event_type,
        message: "Scanning".to_string(),
        context: Vec::new(),
        file_path: None,
        pid: None,
        process_name: None,
        score: None,
        reasons: None,
    }
}

#[test]
fn utc_range_matches_chrono() {
    assert_eq!(MIN_UTC_SECONDS, chrono::DateTime::<chrono::Utc>::MIN_UTC.timestamp());
    assert_eq!(MAX_UTC_SECONDS, chrono::DateTime::<chrono::Utc>::MAX_UTC.timestamp());
    assert!(UtcTimestamp::from_unix_seconds(MIN_UTC_SECONDS).is_some());
    assert!(UtcTimestamp::from_unix_seconds(MAX_UTC_SECONDS).is_some());
    assert!(UtcTimestamp::from_unix_seconds(MIN_UTC_SECONDS - 1).is_none());
    assert!(UtcTimestamp::from_unix_seconds(MAX_UTC_SECONDS + 1).is_none());
    assert_eq!(ts(1234).unix_seconds(), 1234);
}

#[test]
fn time_of_day() {
    assert_eq!(ts(0).hms(), "00:00:00");
    assert_eq!(ts(3661).hms(), "01:01:01");
    assert_eq!(ts(86399).hms(), "23:59:59");
    assert_eq!(ts(86400).hms(), "00:00:00");
    assert_eq!(ts(-1).hms(), "23:59:59");
    // 2024-03-15T13:45:30Z
    assert_eq!(ts(1710510330).hms(), "13:45:30");
    assert_eq!(ts(MIN_UTC_SECONDS).hms(), "00:00:00");
    assert_eq!(ts(MAX_UTC_SECONDS).hms(), "23:59:59");
}

#[test]
fn time_of_day_is_eight_characters_with_colons() {
    for s in [0i64, 59, 3600, 45296, 86399, -86401, 1_700_000_000] {
        let t = ts(s).hms();
        assert_eq!(t.len(), 8);
        assert_eq!(&t[2..3], ":");
        assert_eq!(&t[5..6], ":");
    }
}

#[test]
fn file_match_line() {
    let mut e = event(EventType::FileMatch);
    e.file_path = Some("/tmp/evil.exe".to_string());
    e.score = Some("85".to_string());
    e.reasons = Some(vec!["YARA: Mimikatz".to_string(), "Hash IOC".to_string()]);
    assert_eq!(event_line(&e), "/tmp/evil.exe SCORE:85 YARA: Mimikatz");
}

#[test]
fn file_match_line_defaults() {
    let e = event(EventType::FileMatch);
    assert_eq!(event_line(&e), "unknown SCORE:0 ");
    let mut e = event(EventType::FileMatch);
    e.reasons = Some(Vec::new());
    assert_eq!(event_line(&e), "unknown SCORE:0 ");
}

#[test]
fn process_match_line() {
    let mut e = event(EventType::ProcessMatch);
    e.process_name = Some("powershell.exe".to_string());
    e.pid = Some(4242);
    e.score = Some("120".to_string());
    e.reasons = Some(vec!["Encoded command".to_string()]);
    assert_eq!(event_line(&e), "powershell.exe PID:4242 SCORE:120 Encoded command");
    let e = event(EventType::ProcessMatch);
    assert_eq!(event_line(&e), "unknown PID:0 SCORE:0 ");
}

#[test]
fn message_line_with_context() {
    let mut e = event(EventType::Message);
    assert_eq!(event_line(&e), "Scanning");
    e.context = vec![("dir".to_string(), "/home".to_string()), ("files".to_string(), "12".to_string())];
    assert_eq!(event_line(&e), "Scanning dir=/home files=12");
    let mut e = event(EventType::ScanEnd);
    e.context = vec![("k".to_string(), "v".to_string())];
    assert_eq!(event_line(&e), "Scanning k=v");
}

#[test]
fn context_as_a_map() {
    let mut e = event(EventType::Message);
    assert!(e.has_map_context());
    e.context = vec![("dir".to_string(), "/home".to_string()), ("files".to_string(), "12".to_string())];
    assert!(e.has_map_context());
    e.context = vec![("files".to_string(), "12".to_string()), ("dir".to_string(), "/home".to_string())];
    assert!(!e.has_map_context());
    e.context = vec![("k".to_string(), "1".to_string()), ("k".to_string(), "2".to_string())];
    assert!(!e.has_map_context());
    e.context = vec![
        ("a".to_string(), "1".to_string()),
        ("ab".to_string(), "2".to_string()),
        ("b".to_string(), "3".to_string()),
    ];
    assert!(e.has_map_context());
    assert!(TuiMessage::Log(e).is_well_formed());
    let mut bad = event(EventType::Message);
    bad.context = vec![("z".to_string(), "1".to_string()), ("a".to_string(), "2".to_string())];
    assert!(!TuiMessage::Log(bad).is_well_formed());
    assert!(TuiMessage::ScanComplete.is_well_formed());
}
