use dawei_host::interceptor::{
    banner_line, compose_panic_message, format_crash_dump, FailureInterceptor, HookState,
    PanicSite,
};
use dawei_host::report::{ClockReading, CrashReport};

fn site() -> PanicSite {
    PanicSite { file: "src/main.rs".to_string(), line: 42, column: 7 }
}

#[test]
fn message_with_payload_and_site() {
    let msg = compose_panic_message(Some("index out of bounds".to_string()), Some(site()));
    assert_eq!(msg, "Panic at src/main.rs:42:7: index out of bounds");
}

#[test]
fn message_with_payload_only() {
    let msg = compose_panic_message(Some("boom".to_string()), None);
    assert_eq!(msg, "boom");
}

#[test]
fn unrecognized_payload_uses_the_placeholder() {
    assert_eq!(compose_panic_message(None, None), "Unknown panic");
    assert_eq!(
        compose_panic_message(None, Some(site())),
        "Panic at src/main.rs:42:7: Unknown panic"
    );
}

#[test]
fn installation_is_one_way_and_idempotent() {
    let mut hook = FailureInterceptor::new();
    assert_eq!(hook.state, HookState::Uninstalled);
    hook.install();
    assert_eq!(hook.state, HookState::Installed);
    hook.install();
    assert_eq!(hook.state, HookState::Installed);
}

#[test]
fn crash_dump_is_delimited() {
    let clock = ClockReading {
        epoch_seconds: 1700000000,
        iso: "2023-11-14T22:13:20+00:00".to_string(),
        year: 2023,
        month: 11,
        day: 14,
        hour: 22,
        minute: 13,
        second: 20,
    };
    let report = CrashReport::from_parts(
        "boom".to_string(),
        "trace".to_string(),
        "linux".to_string(),
        "1.0.0".to_string(),
        &clock,
    );
    let banner = banner_line();
    assert_eq!(banner.len(), 60);
    assert!(banner.chars().all(|c| c == '='));
    let dump = format_crash_dump(&report);
    let expected = format!(
        "\n{banner}\nAPPLICATION PANIC\n{banner}\n{}\n{banner}\n\n",
        report.format_display()
    );
    assert_eq!(dump, expected);
}
