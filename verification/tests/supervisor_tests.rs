use dawei_host::supervisor::{
    join_log_lines, restart_decision, ProcessSupervisor, RestartStep, RESTART_COOLDOWN_MS,
};
use dawei_host::Mode;

#[test]
fn development_plan_uses_agent_directory() {
    let sup = ProcessSupervisor::new(Mode::Development);
    let plan = sup.plan_start("/usr/bin/uv", "/opt/app");
    assert_eq!(plan.program, "/usr/bin/uv");
    assert_eq!(
        plan.args,
        vec![
            "run".to_string(),
            "--directory".to_string(),
            "/home/dev007/ws/davybot-proxy/agent".to_string(),
            "dawei".to_string(),
            "server".to_string(),
            "start".to_string(),
        ]
    );
    assert_eq!(plan.working_dir, "/home/dev007/ws/davybot-proxy/agent");
    assert!(plan.env_var.is_none());
    assert_eq!(plan.logs.len(), 6);
    assert_eq!(plan.logs[0], "[start_backend] Starting backend server...");
    assert_eq!(plan.logs[1], "[start_backend] Package manager: /usr/bin/uv");
    assert_eq!(
        plan.logs[5],
        "[start_backend] Full command: /usr/bin/uv run --directory /home/dev007/ws/davybot-proxy/agent dawei server start"
    );
}

#[test]
fn standalone_plan_uses_bundled_environment() {
    let sup = ProcessSupervisor::new(Mode::Standalone);
    let plan = sup.plan_start("/opt/app/resources/python-env/bin/uv", "/opt/app");
    assert_eq!(
        plan.args,
        vec!["run".to_string(), "dawei".to_string(), "server".to_string(), "start".to_string()]
    );
    assert_eq!(plan.working_dir, "/opt/app");
    let env = plan.env_var.expect("standalone mode sets the virtual environment root");
    assert_eq!(env.name, "VIRTUAL_ENV");
    assert_eq!(env.value, "/opt/app/resources/python-env");
    assert_eq!(plan.logs.len(), 7);
    assert_eq!(plan.logs[5], "[start_backend] Environment: VIRTUAL_ENV=/opt/app/resources/python-env");
}

#[test]
fn successful_start_records_pid_and_logs() {
    let mut sup = ProcessSupervisor::new(Mode::Standalone);
    let plan = sup.plan_start("/usr/bin/uv", "/opt/app");
    let outcome = sup.finish_start(plan, Ok(4242));
    assert_eq!(sup.backend_pid, Some(4242));
    let message = outcome.result.expect("spawn succeeded");
    assert_eq!(message, outcome.full_log);
    assert!(message.contains("[start_backend] Backend process started (PID: 4242)"));
    assert!(message.contains("[start_backend] Starting backend server..."));
}

#[test]
fn failed_start_names_the_attempted_path() {
    let mut sup = ProcessSupervisor::new(Mode::Standalone);
    let plan = sup.plan_start("/definitely/missing/uv", "/opt/app");
    let outcome = sup.finish_start(plan, Err("No such file or directory (os error 2)".to_string()));
    let error = outcome.result.expect_err("spawn failed");
    assert!(error.contains("/definitely/missing/uv"));
    assert!(error.contains("No such file or directory (os error 2)"));
    assert!(sup.backend_pid.is_none());
    assert!(outcome.full_log.contains("[start_backend] Failed to start backend at /definitely/missing/uv"));
}

#[test]
fn stop_without_backend_is_an_error() {
    let sup = ProcessSupervisor::new(Mode::Development);
    let err = sup.plan_stop().expect_err("nothing to stop");
    assert_eq!(err, "No running backend process to stop");
}

#[test]
fn stop_clears_the_handle_on_success() {
    let mut sup = ProcessSupervisor::new(Mode::Development);
    let plan = sup.plan_start("/usr/bin/uv", "/opt/app");
    sup.finish_start(plan, Ok(7)).result.expect("spawned");
    assert_eq!(sup.plan_stop().expect("pid known"), 7);
    let message = sup
        .finish_stop(Ok("Backend stopped".to_string()))
        .expect("stop succeeded");
    assert_eq!(message, "Backend stopped");
    assert!(sup.backend_pid.is_none());
}

#[test]
fn failed_stop_keeps_the_handle_and_surfaces_the_error() {
    let mut sup = ProcessSupervisor::new(Mode::Development);
    let plan = sup.plan_start("/usr/bin/uv", "/opt/app");
    sup.finish_start(plan, Ok(7)).result.expect("spawned");
    let err = sup
        .finish_stop(Err("process not found".to_string()))
        .expect_err("stop failed");
    assert_eq!(err, "process not found");
    assert_eq!(sup.backend_pid, Some(7));
}

/// A spy launcher: records which phases the restart policy drives it
/// through, so the order and the short-circuit are visible.
struct SpyLauncher {
    calls: Vec<&'static str>,
}

impl SpyLauncher {
    fn stop(&mut self, succeed: bool) -> Result<String, String> {
        self.calls.push("stop");
        if succeed {
            Ok("stopped".to_string())
        } else {
            Err("stop failed".to_string())
        }
    }

    fn start(&mut self) {
        self.calls.push("start");
    }

    fn restart(&mut self, stop_succeeds: bool) -> Result<(), String> {
        let stop_result = self.stop(stop_succeeds);
        match restart_decision(stop_result) {
            RestartStep::Proceed { cooldown_ms } => {
                assert!(cooldown_ms > 0);
                self.start();
                Ok(())
            }
            RestartStep::Abort { error } => Err(error),
        }
    }
}

#[test]
fn restart_runs_stop_then_start() {
    let mut spy = SpyLauncher { calls: Vec::new() };
    spy.restart(true).expect("restart goes through");
    assert_eq!(spy.calls, vec!["stop", "start"]);
}

#[test]
fn restart_never_starts_after_a_failed_stop() {
    let mut spy = SpyLauncher { calls: Vec::new() };
    let err = spy.restart(false).expect_err("restart aborts");
    assert_eq!(err, "stop failed");
    assert_eq!(spy.calls, vec!["stop"]);
}

#[test]
fn restart_cooldown_is_fixed_and_nonzero() {
    match restart_decision(Ok("stopped".to_string())) {
        RestartStep::Proceed { cooldown_ms } => {
            assert_eq!(cooldown_ms, RESTART_COOLDOWN_MS);
            assert!(cooldown_ms > 0);
        }
        RestartStep::Abort { .. } => panic!("a successful stop must proceed"),
    }
}

#[test]
fn log_lines_join_with_newlines() {
    let lines = vec!["one".to_string(), "two".to_string(), "three".to_string()];
    assert_eq!(join_log_lines(&lines), "one\ntwo\nthree");
    assert_eq!(join_log_lines(&Vec::new()), "");
    assert_eq!(join_log_lines(&vec!["solo".to_string()]), "solo");
}
