use dawei_host::report::{ClockReading, CrashReport};

fn sample_clock() -> ClockReading {
    ClockReading {
        epoch_seconds: 1700000000,
        iso: "2023-11-14T22:13:20+00:00".to_string(),
        year: 2023,
        month: 11,
        day: 14,
        hour: 22,
        minute: 13,
        second: 20,
    }
}

fn sample_report() -> CrashReport {
    CrashReport::from_parts(
        "boom".to_string(),
        "".to_string(),
        "linux".to_string(),
        "1.2.3".to_string(),
        &sample_clock(),
    )
}

#[test]
fn test_crash_report_creation() {
    let report = CrashReport::new(
        "Test error".to_string(),
        "Test backtrace".to_string(),
        "linux".to_string(),
        "0.1.0".to_string(),
    );

    assert_eq!(report.error_message, "Test error");
    assert_eq!(report.backtrace, "Test backtrace");
}

#[test]
fn test_json_serialization() {
    let report = CrashReport::new(
        "Test error".to_string(),
        "Test backtrace".to_string(),
        "linux".to_string(),
        "0.1.0".to_string(),
    );

    let json = report.to_json();
    assert!(json.contains("Test error"));
    assert!(json.contains("Test backtrace"));
}

#[test]
fn new_derives_filename_shape() {
    let report = CrashReport::new(
        "x".to_string(),
        "y".to_string(),
        "linux".to_string(),
        "0.1.0".to_string(),
    );
    assert_eq!(report.filename.chars().count(), 26);
    assert!(report.filename.starts_with("crash_"));
    assert!(report.filename.ends_with(".json"));
}

#[test]
fn from_parts_fields_and_filename() {
    let report = sample_report();
    assert_eq!(report.timestamp, 1700000000);
    assert_eq!(report.timestamp_iso, "2023-11-14T22:13:20+00:00");
    assert_eq!(report.error_message, "boom");
    assert_eq!(report.backtrace, "");
    assert_eq!(report.platform, "linux");
    assert_eq!(report.app_version, "1.2.3");
    assert_eq!(report.filename, "crash_20231114_221320.json");
}

#[test]
fn from_parts_pads_single_digit_fields() {
    let mut clock = sample_clock();
    clock.month = 1;
    clock.day = 5;
    clock.hour = 9;
    clock.minute = 3;
    clock.second = 7;
    let report = CrashReport::from_parts(
        "m".to_string(),
        "b".to_string(),
        "linux".to_string(),
        "1.0.0".to_string(),
        &clock,
    );
    assert_eq!(report.filename, "crash_20230105_090307.json");
}

#[test]
fn from_parts_clamps_pre_epoch_clock() {
    let mut clock = sample_clock();
    clock.epoch_seconds = -5;
    let report = CrashReport::from_parts(
        "m".to_string(),
        "b".to_string(),
        "linux".to_string(),
        "1.0.0".to_string(),
        &clock,
    );
    assert_eq!(report.timestamp, 0);
}

#[test]
fn to_json_exact_document() {
    let report = sample_report();
    let expected = "{\n  \"timestamp\": 1700000000,\n  \"timestamp_iso\": \"2023-11-14T22:13:20+00:00\",\n  \"error_message\": \"boom\",\n  \"backtrace\": \"\",\n  \"platform\": \"linux\",\n  \"app_version\": \"1.2.3\",\n  \"filename\": \"crash_20231114_221320.json\"\n}";
    assert_eq!(report.to_json(), expected);
}

#[test]
fn to_json_escapes_special_characters() {
    let mut report = sample_report();
    report.error_message = "a\"b\\c\nd\te\u{1}".to_string();
    let json = report.to_json();
    assert!(json.contains("a\\\"b\\\\c\\nd\\te\\u0001"));
}

#[test]
fn json_round_trip_plain() {
    let report = sample_report();
    let parsed = CrashReport::from_json(&report.to_json()).expect("canonical form must parse");
    assert_eq!(parsed, report);
}

#[test]
fn json_round_trip_special_characters() {
    let mut report = sample_report();
    report.error_message = "quote \" backslash \\ newline \n tab \t bell \u{7} end".to_string();
    report.backtrace = "frame 1\nframe 2\r\n  at main.rs:10:5 \u{1f} 日本語".to_string();
    let contents = report.to_file_contents();
    let parsed = CrashReport::from_json(&contents).expect("rendered file must parse");
    assert_eq!(parsed, report);
}

#[test]
fn file_contents_end_with_newline() {
    let report = sample_report();
    let contents = report.to_file_contents();
    assert_eq!(contents, format!("{}\n", report.to_json()));
}

#[test]
fn from_json_rejects_corrupt_text() {
    assert!(CrashReport::from_json("not json at all").is_none());
    assert!(CrashReport::from_json("").is_none());
    assert!(CrashReport::from_json("{\n  \"timestamp\": ,\n}").is_none());
}

#[test]
fn from_json_rejects_oversized_timestamp() {
    let report = sample_report();
    let json = report
        .to_json()
        .replace("\"timestamp\": 1700000000", "\"timestamp\": 99999999999999999999");
    assert!(CrashReport::from_json(&json).is_none());
}

#[test]
fn json_round_trip_max_timestamp() {
    let mut clock = sample_clock();
    clock.epoch_seconds = i64::MAX;
    let mut report = CrashReport::from_parts(
        "m".to_string(),
        "b".to_string(),
        "linux".to_string(),
        "1.0.0".to_string(),
        &clock,
    );
    report.timestamp = u64::MAX;
    let parsed = CrashReport::from_json(&report.to_json()).expect("max timestamp must parse");
    assert_eq!(parsed.timestamp, u64::MAX);
}

#[test]
fn serde_json_reads_our_documents() {
    let mut report = sample_report();
    report.error_message = "line\nbreak \"quoted\" \\slash \u{3} ünïcode".to_string();
    let value: serde_json::Value =
        serde_json::from_str(&report.to_json()).expect("output must be valid JSON");
    assert_eq!(value["timestamp"].as_u64(), Some(1700000000));
    assert_eq!(value["timestamp_iso"].as_str(), Some("2023-11-14T22:13:20+00:00"));
    assert_eq!(value["error_message"].as_str(), Some(report.error_message.as_str()));
    assert_eq!(value["platform"].as_str(), Some("linux"));
    assert_eq!(value["app_version"].as_str(), Some("1.2.3"));
    assert_eq!(value["filename"].as_str(), Some("crash_20231114_221320.json"));
}

#[test]
fn format_display_exact_text() {
    let report = sample_report();
    let expected = "Error: boom\nPlatform: linux\nVersion: 1.2.3\nTime: 2023-11-14T22:13:20+00:00\n\nBacktrace:\n";
    assert_eq!(report.format_display(), expected);
}
