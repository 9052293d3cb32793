use yascan::text::{chars_of, decimal_string, format_number, string_of, truncate_path};

#[test]
fn format_number_groups_by_thousands() {
    assert_eq!(format_number(0), "0");
    assert_eq!(format_number(7), "7");
    assert_eq!(format_number(999), "999");
    assert_eq!(format_number(1000), "1,000");
    assert_eq!(format_number(12345), "12,345");
    assert_eq!(format_number(123456), "123,456");
    assert_eq!(format_number(1234567), "1,234,567");
    assert_eq!(format_number(1000000000), "1,000,000,000");
}

#[test]
fn format_number_largest_value() {
    let s = format_number(usize::MAX);
    let digits: String = s.chars().filter(|c| *c != ',').collect();
    assert_eq!(digits, usize::MAX.to_string());
    let len = digits.len();
    assert_eq!(s.len(), len + (len - 1) / 3);
}

#[test]
fn decimal_string_matches_display() {
    for n in [0u64, 1, 9, 10, 99, 100, 4096, 1_000_000, u64::MAX] {
        assert_eq!(decimal_string(n), n.to_string());
    }
}

#[test]
fn truncate_path_keeps_short_paths() {
    assert_eq!(truncate_path("/tmp/a", 10), "/tmp/a");
    assert_eq!(truncate_path("/tmp/abcd", 9), "/tmp/abcd");
    assert_eq!(truncate_path("", 0), "");
}

#[test]
fn truncate_path_cuts_the_middle() {
    // keep = (10 - 3) / 2 = 3
    assert_eq!(truncate_path("/home/user/documents", 10), "/ho...nts");
    // keep = (9 - 3) / 2 = 3
    assert_eq!(truncate_path("abcdefghijkl", 9), "abc...jkl");
}

#[test]
fn truncate_path_small_limits_give_dots() {
    assert_eq!(truncate_path("abcdef", 4), "...");
    assert_eq!(truncate_path("abcdef", 0), "...");
    assert_eq!(truncate_path("abcdef", 2), "...");
}

#[test]
fn truncate_path_counts_characters_not_bytes() {
    // Ten characters, many more bytes.
    let p = "数据文件夹目录名称甲";
    assert_eq!(truncate_path(p, 10), p);
    assert_eq!(truncate_path(p, 9), "数据文...名称甲");
}

#[test]
fn truncated_path_fits_its_limit() {
    let p = "C:\\Users\\someone\\AppData\\Local\\Temp\\scan-target";
    for max in 3..60usize {
        let t = truncate_path(p, max);
        assert!(t.chars().count() <= max, "{} > {}", t, max);
    }
}

#[test]
fn chars_round_trip() {
    let s = "héllo wörld";
    let v = chars_of(s);
    assert_eq!(v.len(), 11);
    assert_eq!(string_of(&v), s);
}

#[test]
fn format_number_group_shape() {
    for n in [0usize, 5, 42, 999, 1000, 65536, 1234567, 99999999, usize::MAX] {
        let s = format_number(n);
        let digits = n.to_string();
        assert_eq!(s.replace(',', ""), digits);
        let groups: Vec<&str> = s.split(',').collect();
        assert!((1..=3).contains(&groups[0].len()));
        assert!(groups[1..].iter().all(|g| g.len() == 3));
        assert_eq!(s.matches(',').count(), (digits.len() - 1) / 3);
    }
}
