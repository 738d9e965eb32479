use dawei_host::report::{ClockReading, CrashReport};
use dawei_host::store::{collect_reports, has_json_name, StoredFile};

fn report_at(epoch: i64, second: u32, message: &str) -> CrashReport {
    let clock = ClockReading {
        epoch_seconds: epoch,
        iso: "2023-11-14T22:13:20+00:00".to_string(),
        year: 2023,
        month: 11,
        day: 14,
        hour: 22,
        minute: 13,
        second,
    };
    CrashReport::from_parts(
        message.to_string(),
        "trace".to_string(),
        "linux".to_string(),
        "1.0.0".to_string(),
        &clock,
    )
}

fn file_of(report: &CrashReport) -> StoredFile {
    StoredFile { name: report.filename.clone(), content: report.to_file_contents() }
}

#[test]
fn save_then_list_includes_the_saved_report() {
    let report = report_at(1234, 1, "saved");
    let listed = collect_reports(vec![file_of(&report)]);
    assert_eq!(listed.len(), 1);
    assert_eq!(listed[0], report);
}

#[test]
fn clear_then_list_is_empty() {
    let listed = collect_reports(Vec::new());
    assert!(listed.is_empty());
}

#[test]
fn corrupt_file_is_skipped_without_error() {
    let a = report_at(100, 1, "first");
    let b = report_at(200, 2, "second");
    let files = vec![
        file_of(&a),
        StoredFile { name: "broken.json".to_string(), content: "{{ not json".to_string() },
        file_of(&b),
    ];
    let listed = collect_reports(files);
    assert_eq!(listed.len(), 2);
}

#[test]
fn non_json_files_are_ignored() {
    let a = report_at(100, 1, "kept");
    let stray = StoredFile { name: "notes.txt".to_string(), content: a.to_file_contents() };
    let hidden = StoredFile { name: ".json".to_string(), content: a.to_file_contents() };
    let listed = collect_reports(vec![stray, hidden, file_of(&a)]);
    assert_eq!(listed.len(), 1);
    assert_eq!(listed[0], a);
}

#[test]
fn three_reports_listed_most_recent_first() {
    let r100 = report_at(100, 1, "at 100");
    let r300 = report_at(300, 2, "at 300");
    let r200 = report_at(200, 3, "at 200");
    let listed = collect_reports(vec![file_of(&r100), file_of(&r300), file_of(&r200)]);
    let stamps: Vec<u64> = listed.iter().map(|r| r.timestamp).collect();
    assert_eq!(stamps, vec![300, 200, 100]);
}

#[test]
fn listing_is_sorted_descending() {
    let reports = [
        report_at(5, 1, "a"),
        report_at(50, 2, "b"),
        report_at(7, 4, "c"),
        report_at(50, 5, "d"),
        report_at(1, 6, "e"),
    ];
    let files: Vec<StoredFile> = reports.iter().map(file_of).collect();
    let listed = collect_reports(files);
    assert_eq!(listed.len(), 5);
    for pair in listed.windows(2) {
        assert!(pair[0].timestamp >= pair[1].timestamp);
    }
}

#[test]
fn json_name_detection() {
    assert!(has_json_name(&"crash_20231114_221320.json".to_string()));
    assert!(has_json_name(&"a.json".to_string()));
    assert!(!has_json_name(&".json".to_string()));
    assert!(!has_json_name(&"crash.txt".to_string()));
    assert!(!has_json_name(&"json".to_string()));
}
