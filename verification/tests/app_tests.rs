use yascan::app::{Clock, Key, KeyOutcome, LogEntry, LoopExit, MouseKind, TuiApp, MAX_LOGS};
use yascan::events::{EventType, LogEvent, LogLevel, TuiMessage, UtcTimestamp};
use yascan::settings::ScanConfig;
use yascan::styles::Hue;

fn config() -> ScanConfig {
    ScanConfig {
        max_file_size: 1_000,
        threads: 4,
        cpu_limit: 50,
        scan_all_types: false,
        scan_hard_drives: true,
        scan_all_drives: false,
        is_elevated: false,
        exclusion_count: 0,
        yara_rules_count: 0,
        ioc_count: 0,
    }
}

fn event(msg: &str, level: LogLevel) -> LogEvent {
    LogEvent {
        timestamp: UtcTimestamp::from_unix_seconds(3600 * 10 + 60 * 5 + 9).unwrap(),
        level,
        event_type: EventType::Message,
        message: msg.to_string(),
        context: Vec::new(),
        file_path: None,
        pid: None,
        process_name: None,
        score: None,
        reasons: None,
    }
}

fn clock(ms: u64) -> Clock {
    Clock { now: UtcTimestamp::from_unix_seconds(45296).unwrap(), monotonic_ms: ms, scan_elapsed_secs: 77 }
}

fn texts(rows: &[yascan::view::Row]) -> Vec<Vec<String>> {
    rows.iter().map(|r| r.spans.iter().map(|s| s.text.clone()).collect()).collect()
}

#[test]
fn new_app_state() {
    let app = TuiApp::new(&config(), "/data", true);
    assert_eq!(app.log_count(), 0);
    assert_eq!(app.scroll_offset(), 0);
    assert!(app.auto_scroll());
    assert!(!app.scan_complete());
    assert!(!app.show_threads_overlay());
    assert_eq!(app.final_duration_secs(), None);
    assert_eq!(app.settings().target_folder, "/data");
    assert_eq!(app.settings().max_file_size, "1 KB");
    assert!(!app.should_auto_exit(u64::MAX));
}

#[test]
fn log_entry_fields() {
    let e = LogEntry::from_event(&event("hello", LogLevel::Warning));
    assert_eq!(e.message, "hello");
    assert_eq!(e.timestamp, "10:05:09");
    assert_eq!(e.level_str(), "WARN");
    assert_eq!(e.level_color(), Hue::Rgb(204, 153, 0));
    let names = [
        (LogLevel::Alert, "ALERT"),
        (LogLevel::Error, "ERROR"),
        (LogLevel::Notice, "NOTICE"),
        (LogLevel::Info, "INFO"),
        (LogLevel::Debug, "DEBUG"),
    ];
    for (l, n) in names {
        assert_eq!(LogEntry::from_event(&event("x", l)).level_str(), n);
    }
}

#[test]
fn log_keeps_the_newest_thousand() {
    let mut app = TuiApp::new(&config(), "/", false);
    for i in 0..(MAX_LOGS + 5) {
        app.add_log(event(&format!("m{}", i), LogLevel::Info));
    }
    assert_eq!(app.log_count(), MAX_LOGS);
    // Following the end: the offset is pinned and resolved on layout.
    assert_eq!(app.scroll_offset(), usize::MAX);
    let rows = app.layout_logs(3, 100);
    assert_eq!(app.scroll_offset(), MAX_LOGS - 3);
    let t = texts(&rows);
    assert_eq!(t.len(), 3);
    assert_eq!(t[2][2], format!("m{}", MAX_LOGS + 4));
    assert_eq!(t[0][2], format!("m{}", MAX_LOGS + 2));
}

#[test]
fn dropping_old_entries_moves_a_fixed_view_up() {
    let mut app = TuiApp::new(&config(), "/", false);
    for i in 0..MAX_LOGS {
        app.add_log(event(&format!("m{}", i), LogLevel::Info));
    }
    app.layout_logs(10, 100);
    app.scroll_up(5);
    assert_eq!(app.scroll_offset(), MAX_LOGS - 15);
    assert!(!app.auto_scroll());
    app.add_log(event("new", LogLevel::Info));
    assert_eq!(app.log_count(), MAX_LOGS);
    assert_eq!(app.scroll_offset(), MAX_LOGS - 16);
}

#[test]
fn scrolling() {
    let mut app = TuiApp::new(&config(), "/", false);
    for i in 0..30 {
        app.add_log(event(&format!("m{}", i), LogLevel::Info));
    }
    app.layout_logs(10, 80);
    assert_eq!(app.scroll_offset(), 20);
    app.scroll_up(3);
    assert_eq!(app.scroll_offset(), 17);
    assert!(!app.auto_scroll());
    app.scroll_up(100);
    assert_eq!(app.scroll_offset(), 0);
    app.scroll_down(5);
    assert_eq!(app.scroll_offset(), 5);
    assert!(!app.auto_scroll());
    app.scroll_down(100);
    assert_eq!(app.scroll_offset(), 20);
    assert!(app.auto_scroll());
    app.scroll_to_top();
    assert_eq!(app.scroll_offset(), 0);
    assert!(!app.auto_scroll());
    app.scroll_to_bottom();
    assert_eq!(app.scroll_offset(), usize::MAX);
    assert!(app.auto_scroll());
}

#[test]
fn scrolling_down_a_short_log_follows_the_end() {
    let mut app = TuiApp::new(&config(), "/", false);
    app.add_log(event("only", LogLevel::Info));
    app.layout_logs(10, 80);
    app.scroll_to_top();
    app.scroll_down(1);
    assert_eq!(app.scroll_offset(), 0);
    assert!(app.auto_scroll());
}

#[test]
fn keys() {
    let mut app = TuiApp::new(&config(), "/", false);
    for i in 0..40 {
        app.add_log(event(&format!("m{}", i), LogLevel::Info));
    }
    app.layout_logs(10, 80);
    // q, Q and Ctrl+C open the confirmation; any key but Y closes it.
    assert_eq!(app.handle_key(Key::Char('q'), false), KeyOutcome::Continue);
    assert!(app.quit_pending());
    assert_eq!(app.handle_key(Key::Down, false), KeyOutcome::Continue);
    assert!(!app.quit_pending());
    assert_eq!(app.handle_key(Key::Char('Q'), false), KeyOutcome::Continue);
    assert_eq!(app.handle_key(Key::Char('q'), false), KeyOutcome::Continue);
    assert!(!app.quit_pending());
    assert_eq!(app.handle_key(Key::Char('c'), true), KeyOutcome::Continue);
    assert!(app.quit_pending());
    assert_eq!(app.handle_key(Key::Esc, false), KeyOutcome::Continue);
    assert!(!app.quit_pending());
    assert_eq!(app.handle_key(Key::Char('c'), false), KeyOutcome::Continue);
    assert!(!app.quit_pending());
    assert_eq!(app.scroll_offset(), 30);
    assert_eq!(app.handle_key(Key::Up, false), KeyOutcome::Continue);
    assert_eq!(app.scroll_offset(), 29);
    app.handle_key(Key::Char('k'), false);
    assert_eq!(app.scroll_offset(), 28);
    app.handle_key(Key::PageUp, false);
    assert_eq!(app.scroll_offset(), 18);
    app.handle_key(Key::Down, false);
    app.handle_key(Key::Char('j'), false);
    assert_eq!(app.scroll_offset(), 20);
    app.handle_key(Key::PageDown, false);
    assert_eq!(app.scroll_offset(), 30);
    assert!(app.auto_scroll());
    app.handle_key(Key::Home, false);
    assert_eq!(app.scroll_offset(), 0);
    app.handle_key(Key::Char('G'), false);
    assert_eq!(app.scroll_offset(), usize::MAX);
    app.layout_logs(10, 80);
    app.handle_key(Key::Char('g'), false);
    assert_eq!(app.scroll_offset(), 0);
    app.handle_key(Key::End, false);
    assert!(app.auto_scroll());
    assert_eq!(app.handle_key(Key::Char('-'), false), KeyOutcome::AdjustCpuLimit(-10));
    assert_eq!(app.handle_key(Key::Char('_'), false), KeyOutcome::AdjustCpuLimit(-10));
    assert_eq!(app.handle_key(Key::Char('+'), false), KeyOutcome::AdjustCpuLimit(10));
    assert_eq!(app.handle_key(Key::Char('='), false), KeyOutcome::AdjustCpuLimit(10));
    assert_eq!(app.handle_key(Key::Char('p'), false), KeyOutcome::TogglePause);
    assert_eq!(app.handle_key(Key::Char('P'), false), KeyOutcome::TogglePause);
    assert_eq!(app.handle_key(Key::Char('s'), false), KeyOutcome::RequestSkip);
    assert_eq!(app.handle_key(Key::Char('S'), false), KeyOutcome::RequestSkip);
    assert_eq!(app.handle_key(Key::Char('x'), false), KeyOutcome::Continue);
    assert_eq!(app.handle_key(Key::Other, false), KeyOutcome::Continue);
    app.apply_cpu_limit(40);
    assert_eq!(app.settings().cpu_limit, 40);
}

#[test]
fn overlay_key_and_escape() {
    let mut app = TuiApp::new(&config(), "/", false);
    app.scroll_to_top();
    app.handle_key(Key::Char('t'), false);
    assert!(app.show_threads_overlay());
    app.handle_key(Key::Esc, false);
    assert!(!app.show_threads_overlay());
    assert!(!app.auto_scroll());
    app.handle_key(Key::Esc, false);
    assert!(app.auto_scroll());
    app.handle_key(Key::Char('T'), false);
    app.handle_key(Key::Char('t'), false);
    assert!(!app.show_threads_overlay());
}

#[test]
fn mouse_wheel_scrolls_three() {
    let mut app = TuiApp::new(&config(), "/", false);
    for i in 0..20 {
        app.add_log(event(&format!("m{}", i), LogLevel::Info));
    }
    app.layout_logs(5, 80);
    app.handle_mouse(MouseKind::ScrollUp);
    assert_eq!(app.scroll_offset(), 12);
    app.handle_mouse(MouseKind::ScrollDown);
    assert_eq!(app.scroll_offset(), 15);
    app.handle_mouse(MouseKind::Other);
    assert_eq!(app.scroll_offset(), 15);
}

#[test]
fn messages() {
    let mut app = TuiApp::new(&config(), "/", true);
    app.process_messages(vec![TuiMessage::InitProgress("Loading YARA".to_string())], clock(0));
    let rows = app.layout_logs(10, 80);
    assert_eq!(texts(&rows), vec![vec!["  / ".to_string(), "Loading YARA".to_string()]]);
    app.process_messages(Vec::new(), clock(0));
    let rows = app.layout_logs(10, 80);
    assert_eq!(rows[0].spans[0].text, "  - ");
    app.process_messages(
        vec![
            TuiMessage::Log(event("first", LogLevel::Notice)),
            TuiMessage::InitComplete { yara_rules_count: 321, ioc_count: 12 },
        ],
        clock(0),
    );
    assert_eq!(app.settings().yara_rules_count, 321);
    assert_eq!(app.settings().ioc_count, 12);
    let rows = app.layout_logs(10, 80);
    assert_eq!(texts(&rows), vec![vec!["NOTICE ".to_string(), " 10:05:09 ".to_string(), "first".to_string()]]);
    app.process_messages(vec![TuiMessage::ScanComplete], clock(1000));
    assert!(app.scan_complete());
    assert_eq!(app.final_duration_secs(), Some(77));
    let rows = app.layout_logs(10, 80);
    assert_eq!(rows.len(), 2);
    assert_eq!(rows[1].spans[0].text, "INFO   ");
    assert_eq!(rows[1].spans[1].text, " 12:34:56 ");
    assert_eq!(rows[1].spans[2].text, "Scan complete. Exiting...");
    assert!(!app.should_auto_exit(3999));
    assert!(app.should_auto_exit(4000));
    assert!(!app.should_auto_exit(10));
}

#[test]
fn messages_in_batches_or_one() {
    let make = || {
        vec![
            TuiMessage::Log(event("a", LogLevel::Info)),
            TuiMessage::InitProgress("x".to_string()),
            TuiMessage::Log(event("b", LogLevel::Alert)),
        ]
    };
    let mut one = TuiApp::new(&config(), "/", false);
    one.process_messages(make(), clock(5));
    let mut two = TuiApp::new(&config(), "/", false);
    let mut m = make();
    let rest = m.split_off(1);
    two.process_messages(m, clock(5));
    two.process_messages(rest, clock(5));
    assert_eq!(texts(&one.layout_logs(10, 80)), texts(&two.layout_logs(10, 80)));
}

#[test]
fn long_messages_are_cut_to_the_width() {
    let mut app = TuiApp::new(&config(), "/", false);
    app.add_log(event("abcdefghijklmnopqrstuvwxyz", LogLevel::Error));
    // width 30: at most 12 characters, 9 kept and "..."
    let rows = app.layout_logs(5, 30);
    assert_eq!(rows[0].spans[2].text, "abcdefghi...");
    let rows = app.layout_logs(5, 44);
    assert_eq!(rows[0].spans[2].text, "abcdefghijklmnopqrstuvwxyz");
    let rows = app.layout_logs(5, 10);
    assert_eq!(rows[0].spans[2].text, "...");
    assert_eq!(rows[0].spans[2].style.fg, Some(Hue::Green));
}

#[test]
fn following_shows_the_newest_entry() {
    let mut app = TuiApp::new(&config(), "/", false);
    for h in 1..8usize {
        app.add_log(event(&format!("n{}", h), LogLevel::Debug));
        let rows = app.layout_logs(h, 80);
        assert_eq!(rows.last().unwrap().spans[2].text, format!("n{}", h));
    }
}

#[test]
fn quitting_needs_confirmation() {
    let mut app = TuiApp::new(&config(), "/", false);
    assert!(!app.quit_pending());
    // Y alone does nothing.
    assert_eq!(app.handle_key(Key::Char('Y'), false), KeyOutcome::Continue);
    assert!(!app.quit_pending());
    assert_eq!(app.handle_key(Key::Char('q'), false), KeyOutcome::Continue);
    assert_eq!(app.handle_key(Key::Char('Y'), false), KeyOutcome::Quit);
    let mut app = TuiApp::new(&config(), "/", false);
    app.handle_key(Key::Char('c'), true);
    assert_eq!(app.handle_key(Key::Char('y'), false), KeyOutcome::Quit);
    // A key that would scroll only closes the confirmation.
    let mut app = TuiApp::new(&config(), "/", false);
    for i in 0..40 {
        app.add_log(event(&format!("m{}", i), LogLevel::Info));
    }
    app.layout_logs(10, 80);
    app.handle_key(Key::Char('q'), false);
    assert_eq!(app.handle_key(Key::Home, false), KeyOutcome::Continue);
    assert_eq!(app.scroll_offset(), 30);
    assert!(!app.quit_pending());
}

#[test]
fn key_releases_change_nothing() {
    let mut app = TuiApp::new(&config(), "/", false);
    assert_eq!(app.handle_key_event(Key::Char('q'), false, false), KeyOutcome::Continue);
    assert!(!app.quit_pending());
    assert_eq!(app.handle_key_event(Key::Char('q'), false, true), KeyOutcome::Continue);
    assert_eq!(app.handle_key_event(Key::Char('Y'), false, false), KeyOutcome::Continue);
    assert!(app.quit_pending());
    assert_eq!(app.handle_key_event(Key::Char('Y'), false, true), KeyOutcome::Quit);
}

#[test]
fn exit_status_by_reason() {
    let mut app = TuiApp::new(&config(), "/", false);
    assert_eq!(app.exit_status(LoopExit::UserQuit), (true, false));
    assert_eq!(app.exit_status(LoopExit::DrawFailed), (false, false));
    assert_eq!(app.exit_status(LoopExit::AutoExit), (false, true));
    app.process_messages(vec![TuiMessage::ScanComplete], clock(1000));
    assert_eq!(app.exit_status(LoopExit::UserQuit), (true, true));
    assert_eq!(app.exit_status(LoopExit::DrawFailed), (false, true));
}

#[test]
fn status_bar_asks_to_confirm_quitting() {
    let stats = yascan::view::ScanStats {
        files_scanned: 5,
        processes_scanned: 0,
        alerts: 0,
        warnings: 0,
        notices: 0,
        cpu_limit: 60,
        is_paused: false,
        scan_rate: "1".to_string(),
        eta_secs: None,
        elapsed_secs: 3,
    };
    let mut app = TuiApp::new(&config(), "/", false);
    let texts = |r: yascan::view::Row| r.spans.into_iter().map(|s| s.text).collect::<Vec<_>>();
    let normal = texts(yascan::view::status_line(false, None, &stats));
    assert_eq!(texts(app.status_row(&stats)), normal);
    app.handle_key(Key::Char('q'), false);
    let row = app.status_row(&stats);
    assert_eq!(row.spans.len(), 1);
    assert_eq!(row.spans[0].text, " Quit the scan? Press Y to confirm, any other key to cancel ");
    assert_eq!(row.spans[0].style.fg, Some(Hue::Black));
    assert_eq!(row.spans[0].style.bg, Some(Hue::Yellow));
    app.handle_key(Key::Char('n'), false);
    assert_eq!(texts(app.status_row(&stats)), normal);
}

#[test]
fn key_down_steps() {
    let mut app = TuiApp::new(&config(), "/", false);
    assert_eq!(app.key_down_step(Key::Down, false), 1);
    assert_eq!(app.key_down_step(Key::Char('j'), false), 1);
    assert_eq!(app.key_down_step(Key::PageDown, false), 10);
    assert_eq!(app.key_down_step(Key::Up, false), 0);
    app.handle_key(Key::Char('q'), false);
    assert_eq!(app.key_down_step(Key::PageDown, false), 0);
}
