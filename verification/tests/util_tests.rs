use yascan::util::{
    archive_entry_file_name, check_single_input,
    classify_command, default_ioc_files, is_glob_pattern, is_jsonl_input, is_yara_archive_entry,
    is_yara_rule_extension, missing_ioc_files, parse_html_args, plan_report, sort_paths, HtmlArgError, HtmlCommand,
    HtmlOptions, ReportMode, UtilCommand,
};

fn args(a: &[&str]) -> Vec<String> {
    a.iter().map(|s| s.to_string()).collect()
}

#[test]
fn commands() {
    assert_eq!(classify_command(&"update".to_string()), UtilCommand::Update);
    assert_eq!(classify_command(&"html".to_string()), UtilCommand::Html);
    assert_eq!(classify_command(&"--help".to_string()), UtilCommand::Help);
    assert_eq!(classify_command(&"-h".to_string()), UtilCommand::Help);
    assert_eq!(classify_command(&"Update".to_string()), UtilCommand::Unknown);
}

#[test]
fn html_options() {
    match parse_html_args(&args(&["--input", "scan.jsonl", "-o", "out.html", "-t", "Title", "-h", "host1", "-c"])) {
        Ok(HtmlCommand::Generate(o)) => {
            assert_eq!(o.input, "scan.jsonl");
            assert_eq!(o.output.as_deref(), Some("out.html"));
            assert_eq!(o.title.as_deref(), Some("Title"));
            assert_eq!(o.host.as_deref(), Some("host1"));
            assert!(o.combine);
        }
        other => panic!("{:?}", other),
    }
    match parse_html_args(&args(&["-i", "a.jsonl", "--input", "b.jsonl"])) {
        Ok(HtmlCommand::Generate(o)) => {
            assert_eq!(o.input, "b.jsonl");
            assert_eq!(o.output, None);
            assert!(!o.combine);
        }
        other => panic!("{:?}", other),
    }
}

#[test]
fn html_help_and_errors() {
    assert!(matches!(parse_html_args(&args(&["--help"])), Ok(HtmlCommand::Help)));
    assert!(matches!(parse_html_args(&args(&["-c", "--help", "--bogus"])), Ok(HtmlCommand::Help)));
    assert_eq!(parse_html_args(&args(&[])).unwrap_err(), HtmlArgError::MissingInput);
    assert_eq!(parse_html_args(&args(&["-c"])).unwrap_err(), HtmlArgError::MissingInput);
    assert_eq!(parse_html_args(&args(&["--input"])).unwrap_err(), HtmlArgError::MissingValue("--input".to_string()));
    assert_eq!(parse_html_args(&args(&["-i", "x", "-o"])).unwrap_err(), HtmlArgError::MissingValue("--output".to_string()));
    assert_eq!(parse_html_args(&args(&["-t"])).unwrap_err(), HtmlArgError::MissingValue("--title".to_string()));
    assert_eq!(parse_html_args(&args(&["-h"])).unwrap_err(), HtmlArgError::MissingValue("--host".to_string()));
    assert_eq!(parse_html_args(&args(&["--bogus", "--help"])).unwrap_err(), HtmlArgError::UnknownArgument("--bogus".to_string()));
}

#[test]
fn html_error_messages() {
    assert_eq!(HtmlArgError::MissingValue("--input".to_string()).message(), "--input requires a value");
    assert_eq!(HtmlArgError::UnknownArgument("-x".to_string()).message(), "Unknown argument: -x");
    assert_eq!(HtmlArgError::MissingInput.message(), "--input is required");
    assert_eq!(HtmlArgError::NoFilesFound("*.jsonl".to_string()).message(), "No files found matching: *.jsonl");
}

fn options(combine: bool, output: Option<&str>) -> HtmlOptions {
    HtmlOptions {
        input: "*.jsonl".to_string(),
        output: output.map(|s| s.to_string()),
        combine,
        title: Some("T".to_string()),
        host: None,
    }
}

#[test]
fn report_plans() {
    assert_eq!(plan_report(&options(false, None), 0).unwrap_err(), HtmlArgError::NoFilesFound("*.jsonl".to_string()));
    match plan_report(&options(false, None), 2).unwrap() {
        ReportMode::Combined { output } => assert_eq!(output, "combined_report.html"),
        other => panic!("{:?}", other),
    }
    match plan_report(&options(true, Some("all.html")), 1).unwrap() {
        ReportMode::Combined { output } => assert_eq!(output, "all.html"),
        other => panic!("{:?}", other),
    }
    match plan_report(&options(false, Some("one.html")), 1).unwrap() {
        ReportMode::Single { output, title, host } => {
            assert_eq!(output.as_deref(), Some("one.html"));
            assert_eq!(title.as_deref(), Some("T"));
            assert_eq!(host, None);
        }
        other => panic!("{:?}", other),
    }
}

#[test]
fn glob_patterns() {
    assert!(is_glob_pattern("*.jsonl"));
    assert!(is_glob_pattern("scan?.jsonl"));
    assert!(is_glob_pattern("logs/[ab].jsonl"));
    assert!(!is_glob_pattern("logs/scan.jsonl"));
    assert!(!is_glob_pattern(""));
}

#[test]
fn paths_sort_like_strings() {
    let input = args(&["b.jsonl", "a.jsonl", "B.jsonl", "a", "ä.jsonl", "a.jsonl", "", "a0.jsonl"]);
    let mut expected = input.clone();
    expected.sort();
    assert_eq!(sort_paths(input), expected);
}

#[test]
fn yara_extensions() {
    assert!(is_yara_rule_extension("yar"));
    assert!(is_yara_rule_extension("YAR"));
    assert!(is_yara_rule_extension("Yara"));
    assert!(!is_yara_rule_extension("yarx"));
    assert!(!is_yara_rule_extension("ya"));
    assert!(!is_yara_rule_extension(""));
    assert!(!is_yara_rule_extension("txt"));
}

#[test]
fn yara_archive_entries() {
    assert!(is_yara_archive_entry("packages/core/yara-rules-core.yar"));
    assert!(is_yara_archive_entry(".yar"));
    assert!(!is_yara_archive_entry("packages/core/"));
    assert!(!is_yara_archive_entry("packages/core/rules.yara"));
    assert!(!is_yara_archive_entry("README.md"));
    assert!(!is_yara_archive_entry("dir.yar/"));
    assert!(!is_yara_archive_entry("yar"));
}

#[test]
fn default_indicator_files() {
    let files = default_ioc_files();
    let names: Vec<&str> = files.iter().map(|f| f.0.as_str()).collect();
    assert_eq!(names, vec!["hash-iocs.txt", "filename-iocs.txt", "c2-iocs.txt", "keywords.txt"]);
    assert_eq!(files[0].1, "# Optional custom hash IOCs\n");
    assert_eq!(files[3].1, "# Optional custom keyword IOCs\n");
}

fn names(files: &[(String, String)]) -> Vec<&str> {
    files.iter().map(|(n, _)| n.as_str()).collect()
}

#[test]
fn missing_indicator_files_none_present() {
    let files = missing_ioc_files(&vec![false, false, false, false]);
    assert_eq!(files, default_ioc_files());
}

#[test]
fn missing_indicator_files_some_present() {
    let files = missing_ioc_files(&vec![true, false, true, false]);
    assert_eq!(names(&files), vec!["filename-iocs.txt", "keywords.txt"]);
    assert_eq!(files[0].1, "# Optional custom filename IOCs\n");
    assert_eq!(files[1].1, "# Optional custom keyword IOCs\n");
}

#[test]
fn missing_indicator_files_all_present() {
    assert!(missing_ioc_files(&vec![true, true, true, true]).is_empty());
}

#[test]
fn indicator_update_is_idempotent() {
    let defaults = default_ioc_files();
    let mut present = vec![false, true, false, true];
    let written = missing_ioc_files(&present);
    assert_eq!(names(&written), vec!["hash-iocs.txt", "c2-iocs.txt"]);
    for (i, (name, _)) in defaults.iter().enumerate() {
        if written.iter().any(|(n, _)| n == name) {
            present[i] = true;
        }
    }
    assert_eq!(present, vec![true, true, true, true]);
    assert!(missing_ioc_files(&present).is_empty());
}

#[test]
fn jsonl_inputs() {
    assert!(is_jsonl_input(true, Some("jsonl")));
    assert!(!is_jsonl_input(false, Some("jsonl")));
    assert!(!is_jsonl_input(true, Some("json")));
    assert!(!is_jsonl_input(true, Some("JSONL")));
    assert!(!is_jsonl_input(true, None));
}

#[test]
fn archive_entry_file_names() {
    assert_eq!(archive_entry_file_name("yara-forge-rules-core/packages/core/yara-rules-core.yar"), "yara-rules-core.yar");
    assert_eq!(archive_entry_file_name("rules.yar"), "rules.yar");
    assert_eq!(archive_entry_file_name("a//b.yar"), "b.yar");
    assert_eq!(archive_entry_file_name("dir/"), "");
    for name in ["x/y/z.yar", "./q.yar", "deep/.hidden.yar"] {
        let expected = std::path::Path::new(name).file_name().unwrap().to_str().unwrap();
        assert_eq!(archive_entry_file_name(name), expected);
    }
}

#[test]
fn single_input_checks() {
    assert_eq!(check_single_input("scan.jsonl", true, true), Ok(()));
    assert_eq!(check_single_input("missing.jsonl", false, false), Err("File not found: missing.jsonl".to_string()));
    assert_eq!(check_single_input("logs", true, false), Err("Path is not a file: logs".to_string()));
}
