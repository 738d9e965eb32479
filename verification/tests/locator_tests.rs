use dawei_host::locator::{
    dawei_home_path, env_file_contents, format_python_info, is_standalone_path, str_contains,
    trim_str, PmProbe, RuntimeLocator,
};
use dawei_host::Mode;

fn probe(over: Option<&str>, unix: bool, windows: bool) -> PmProbe {
    PmProbe {
        env_override: over.map(|s| s.to_string()),
        bundled_unix_present: unix,
        bundled_windows_present: windows,
    }
}

#[test]
fn bundled_runtime_wins_without_consulting_the_search_path() {
    let locator = RuntimeLocator::new(Mode::Standalone);
    let path = locator.resolve_package_manager("/opt/app", probe(None, true, false));
    assert_eq!(path, "/opt/app/resources/python-env/bin/uv");
}

#[test]
fn windows_layout_is_tried_after_unix_layout() {
    let locator = RuntimeLocator::new(Mode::Standalone);
    let path = locator.resolve_package_manager("/opt/app", probe(None, false, true));
    assert_eq!(path, "/opt/app/resources/python-env/Scripts/uv.exe");
}

#[test]
fn missing_bundle_falls_back_to_the_bare_command() {
    let locator = RuntimeLocator::new(Mode::Standalone);
    let path = locator.resolve_package_manager("/opt/app", probe(None, false, false));
    assert_eq!(path, "uv");
}

#[test]
fn environment_override_beats_everything() {
    let locator = RuntimeLocator::new(Mode::Development);
    let path = locator.resolve_package_manager("/opt/app", probe(Some("/custom/uv"), true, true));
    assert_eq!(path, "/custom/uv");
}

#[test]
fn normalization_prefers_canonical_then_search_hit() {
    let locator = RuntimeLocator::new(Mode::Development);
    assert_eq!(
        locator.normalize_resolved(
            "uv".to_string(),
            Some("/real/uv".to_string()),
            Some("/path/uv".to_string())
        ),
        "/real/uv"
    );
    assert_eq!(
        locator.normalize_resolved("uv".to_string(), None, Some("/path/uv".to_string())),
        "/path/uv"
    );
    assert_eq!(locator.normalize_resolved("uv".to_string(), None, None), "uv");
}

#[test]
fn bundled_interpreter_resolution() {
    let locator = RuntimeLocator::new(Mode::Standalone);
    assert_eq!(
        locator.bundled_interpreter("/opt/app", true, false),
        Some("/opt/app/resources/python-env/bin/python".to_string())
    );
    assert_eq!(
        locator.bundled_interpreter("/opt/app", false, true),
        Some("/opt/app/resources/python-env/Scripts/python.exe".to_string())
    );
    assert_eq!(locator.bundled_interpreter("/opt/app", false, false), None);
}

#[test]
fn interpreter_lookup_trims_the_single_line_output() {
    let locator = RuntimeLocator::new(Mode::Standalone);
    let path = locator
        .interpreter_from_lookup(Some("  /usr/bin/python3\n".to_string()))
        .expect("lookup succeeded");
    assert_eq!(path, "/usr/bin/python3");
}

#[test]
fn interpreter_lookup_failure_is_a_reportable_error() {
    let locator = RuntimeLocator::new(Mode::Standalone);
    let err = locator.interpreter_from_lookup(None).expect_err("lookup failed");
    assert_eq!(err, "Unable to locate a Python environment");
}

#[test]
fn standalone_marker_detection() {
    assert!(is_standalone_path("/opt/app/resources/python-env/bin/uv"));
    assert!(!is_standalone_path("/usr/local/bin/uv"));
    assert!(!is_standalone_path(""));
}

#[test]
fn substring_search_agrees_with_std() {
    let cases = [
        ("hello world", "world"),
        ("hello", "hello"),
        ("hello", "hellothere"),
        ("aaa", "aa"),
        ("abcabc", "cab"),
        ("", ""),
        ("x", ""),
        ("", "x"),
    ];
    for (hay, needle) in cases {
        assert_eq!(str_contains(hay, needle), hay.contains(needle), "{hay:?} / {needle:?}");
    }
}

#[test]
fn trimming_matches_std() {
    for s in ["  a b \n", "\t\r\n", "", "no-ws", " leading", "trailing  "] {
        assert_eq!(trim_str(s), s.trim(), "{s:?}");
    }
}

#[test]
fn home_directory_resolution() {
    assert_eq!(
        dawei_home_path(Some("/custom/home".to_string()), Some("/home/u".to_string())),
        "/custom/home"
    );
    assert_eq!(dawei_home_path(None, Some("/home/u".to_string())), "/home/u/.dawei");
    assert_eq!(dawei_home_path(None, None), "./.dawei");
}

#[test]
fn python_info_rendering() {
    assert_eq!(
        format_python_info("Python 3.12.1", "/usr/bin/python3", "/usr/bin/uv"),
        "Python 3.12.1 @ /usr/bin/python3\nUV: /usr/bin/uv"
    );
}

#[test]
fn env_file_rendering() {
    assert_eq!(
        env_file_contents("/usr/bin/python3", "/usr/bin/uv"),
        "DAWEI_PYTHON_PATH=/usr/bin/python3\nDAWEI_UV_PATH=/usr/bin/uv\n"
    );
}
