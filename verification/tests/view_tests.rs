use yascan::settings::{ScanConfig, SettingsDisplay};
use yascan::styles::{Hue, SpanStyle};
use yascan::view::{
    banner_lines, overlay_area, overlay_rows, overlay_title, sort_thread_entries, status_line, Row,
    ScanStats,
};

fn texts(rows: &[Row]) -> Vec<Vec<String>> {
    rows.iter().map(|r| r.spans.iter().map(|s| s.text.clone()).collect()).collect()
}

fn row_text(row: &Row) -> String {
    row.spans.iter().map(|s| s.text.as_str()).collect()
}

fn settings() -> SettingsDisplay {
    SettingsDisplay::from_config(
        &ScanConfig {
            max_file_size: 10,
            threads: 6,
            cpu_limit: 80,
            scan_all_types: true,
            scan_hard_drives: false,
            scan_all_drives: true,
            is_elevated: false,
            exclusion_count: 2,
            yara_rules_count: 4000,
            ioc_count: 17,
        },
        "/var/lib/very/long/target/folder",
    )
}

#[test]
fn banner() {
    let rows = banner_lines(&settings(), 30, "1.2.3", 5, "42.5");
    let t = texts(&rows);
    assert_eq!(t[0], vec!["  YaScan ", "v1.2.3"]);
    assert_eq!(
        t[1],
        vec!["  ", "Target: /var/l...folder  ", "Threads: 6  ", "CPU: 80%  ", "YARA: 4000  ", "IOCs: 17  ", "Excl: 2"]
    );
    assert_eq!(
        t[2],
        vec!["  ", "Elevated: NO  ", "AllTypes: ON  ", "HardDrv: OFF  ", "AllDrv: ON  ", "Skipped: 5  ", "Progress: 42.5%"]
    );
    assert_eq!(t[3], vec!["  ".to_string(), " ".repeat(28)]);
    assert_eq!(rows[2].spans[1].style.fg, Some(Hue::Red));
    assert_eq!(rows[2].spans[2].style.fg, Some(Hue::Green));
    assert_eq!(rows[2].spans[3].style.fg, Some(Hue::DarkGray));
    assert_eq!(rows[1].spans[4].style, SpanStyle { fg: Some(Hue::Rgb(204, 153, 0)), bg: None, bold: true, italic: false });
}

#[test]
fn banner_narrow_width() {
    let rows = banner_lines(&settings(), 2, "0", 0, "0.0");
    assert_eq!(rows[1].spans[1].text, "Target: ...  ");
    assert_eq!(rows[3].spans[1].text, "");
}

fn stats() -> ScanStats {
    ScanStats {
        files_scanned: 1234567,
        processes_scanned: 89,
        alerts: 3,
        warnings: 14,
        notices: 0,
        cpu_limit: 60,
        is_paused: false,
        scan_rate: "250".to_string(),
        eta_secs: Some(3725),
        elapsed_secs: 90061,
    }
}

#[test]
fn status_bar_running() {
    let row = status_line(false, None, &stats());
    assert_eq!(
        row_text(&row),
        "[RUN] Files:1,234,567 Procs:89 | Rate:250/s | ETA:01:02:05 | ALERT:3 WARN:14 NOTICE:0 | 25:01:01 | CPU:60% [+/-] [p]ause [s]kip [t]hreads [q]uit"
    );
    assert_eq!(row.spans.len(), 24);
}

#[test]
fn status_bar_paused_and_done() {
    let mut s = stats();
    s.is_paused = true;
    s.eta_secs = None;
    let row = status_line(false, None, &s);
    assert_eq!(row.spans[0].text, "[PAUSED] ");
    assert_eq!(row.spans[10].text, "--:--:-- ");
    let row = status_line(true, Some(59), &s);
    assert_eq!(row.spans[0].text, "[DONE] ");
    assert_eq!(row.spans[19].text, "00:00:59");
}

fn float_area(w: u16, h: u16, n: usize) -> (u16, u16, u16, u16) {
    let ow = (w as f32 * 0.8).min(100.0) as u16;
    let oh = (n as u16 + 4).min(h.saturating_sub(4)).max(8);
    (w.saturating_sub(ow) / 2, h.saturating_sub(oh) / 2, ow, oh)
}

#[test]
fn overlay_area_agrees_with_float_sizes() {
    for w in 0..=u16::MAX {
        let a = overlay_area(w, 40, 3);
        assert_eq!(a, float_area(w, 40, 3), "width {}", w);
    }
    for h in 0..200u16 {
        for n in [0usize, 1, 5, 30, 200] {
            assert_eq!(overlay_area(120, h, n), float_area(120, h, n));
        }
    }
    assert_eq!(overlay_area(100, 50, 2), (10, 21, 80, 8));
}

#[test]
fn overlay_stays_on_screen() {
    for w in [0u16, 1, 10, 80, 200, 1000] {
        for h in [8u16, 9, 20, 100] {
            for n in [0usize, 4, 50] {
                let (x, y, ow, oh) = overlay_area(w, h, n);
                assert!(x as u32 + ow as u32 <= w as u32);
                assert!(y as u32 + oh as u32 <= h as u32);
            }
        }
    }
}

#[test]
fn thread_entries_sorted() {
    let entries = vec![(3, "c".to_string()), (0, "a".to_string()), (12, "z".to_string()), (1, "b".to_string())];
    let sorted = sort_thread_entries(entries);
    let ids: Vec<usize> = sorted.iter().map(|e| e.0).collect();
    assert_eq!(ids, vec![0, 1, 3, 12]);
    assert_eq!(sorted[2].1, "c");
    let same = sort_thread_entries(vec![(2, "x".to_string()), (2, "y".to_string()), (1, "w".to_string())]);
    assert_eq!(same, vec![(1, "w".to_string()), (2, "x".to_string()), (2, "y".to_string())]);
}

#[test]
fn overlay_contents() {
    let title = overlay_title(2, false);
    assert_eq!(row_text(&title), " THREAD ACTIVITY  [SCANNING]  (2 active) ");
    let title = overlay_title(0, true);
    assert_eq!(title.spans[1].text, " [PAUSED] ");

    let entries = vec![(0, "/a/short".to_string()), (9, "/a/very/long/path/to/a/file.bin".to_string())];
    let rows = overlay_rows(&entries, false, 26);
    let t = texts(&rows);
    assert_eq!(t[0], vec![" [ 1] ", "/a/short"]);
    assert_eq!(t[1], vec![" [10] ", "/a/ve...e.bin"]);
    assert_eq!(t[2], Vec::<String>::new());
    assert_eq!(row_text(&rows[3]), " [s] skip all  [p] pause/resume  [Esc/t] close");
    assert_eq!(rows.len(), 4);
}

#[test]
fn overlay_without_threads() {
    let rows = overlay_rows(&Vec::new(), false, 40);
    assert_eq!(texts(&rows)[0], vec!["  ", "(No active scans)"]);
    assert!(rows[0].spans[1].style.italic);
    let rows = overlay_rows(&Vec::new(), true, 40);
    assert_eq!(rows[0].spans[1].text, "Scan is paused. Press [p] to resume.");
    assert_eq!(rows.len(), 3);
}
