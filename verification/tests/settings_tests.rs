use yascan::settings::{format_size, ScanConfig, SettingsDisplay};

fn float_text(v: u64) -> String {
    if v >= 1_000_000 {
        format!("{:.0} MB", v as f64 / 1_000_000.0)
    } else if v >= 1_000 {
        format!("{:.0} KB", v as f64 / 1_000.0)
    } else {
        format!("{} B", v)
    }
}

#[test]
fn size_text_examples() {
    assert_eq!(format_size(0), "0 B");
    assert_eq!(format_size(999), "999 B");
    assert_eq!(format_size(1000), "1 KB");
    assert_eq!(format_size(1500), "2 KB");
    assert_eq!(format_size(2500), "2 KB");
    assert_eq!(format_size(999_499), "999 KB");
    assert_eq!(format_size(999_500), "1000 KB");
    assert_eq!(format_size(100_000_000), "100 MB");
    assert_eq!(format_size(2_500_000), "2 MB");
    assert_eq!(format_size(3_500_000), "4 MB");
}

#[test]
fn size_text_agrees_with_float_formatting() {
    let mut v: u64 = 0;
    while v < 5_000_000 {
        assert_eq!(format_size(v), float_text(v), "{}", v);
        v += 97;
    }
    for v in [
        999_999u64, 1_000_000, 1_499_999, 1_500_000, 1_500_001, 4_294_967_296,
        (1u64 << 53) - 1, 123_456_789_012,
    ] {
        assert_eq!(format_size(v), float_text(v), "{}", v);
    }
}

fn config() -> ScanConfig {
    ScanConfig {
        max_file_size: 50_000_000,
        threads: 8,
        cpu_limit: 70,
        scan_all_types: true,
        scan_hard_drives: false,
        scan_all_drives: false,
        is_elevated: true,
        exclusion_count: 3,
        yara_rules_count: 1200,
        ioc_count: 45,
    }
}

#[test]
fn settings_from_config() {
    let d = SettingsDisplay::from_config(&config(), "/srv/data");
    assert_eq!(d.target_folder, "/srv/data");
    assert_eq!(d.threads, 8);
    assert_eq!(d.cpu_limit, 70);
    assert_eq!(d.max_file_size, "50 MB");
    assert!(d.scan_all_types);
    assert!(!d.scan_hard_drives);
    assert!(d.is_elevated);
    assert_eq!(d.exclusion_count, 3);
    assert_eq!(d.yara_rules_count, 1200);
    assert_eq!(d.ioc_count, 45);
    assert_eq!(d.truncate_path(100), "/srv/data");
    assert_eq!(d.truncate_path(7), "/s...ta");
}
