//! Starting, stopping and restarting the backend process.
//!
//! The supervisor decides; the embedding application acts. `plan_start`
//! builds the exact command line, working directory, environment and log
//! lines for the current mode; the application spawns the process and hands
//! the outcome to `finish_start`, which records the handle and composes the
//! returned log or error. `restart_decision` is the whole restart policy:
//! proceed to a start, after a fixed non-zero cool-down, exactly when the
//! stop succeeded.

use vstd::prelude::*;
use vstd::string::*;

use crate::Mode;
use crate::chars::{dec_digits, push_dec_u64, push_str_chars, string_of_chars};
use crate::locator::path_join;

verus! {

/// The fixed source-tree location of the backend in development mode.
pub open spec fn agent_dir_chars() -> Seq<char> {
    "/home/dev007/ws/davybot-proxy/agent"@
}

/// Milliseconds the restart waits between a successful stop and the start,
/// so the system can release sockets and files.
pub const RESTART_COOLDOWN_MS: u64 = 1000;

/// One environment variable to set on the spawned process.
pub struct EnvVar {
    pub name: String,
    pub value: String,
}

/// Everything the application needs to spawn the backend, plus the log
/// lines describing each resolution step taken.
pub struct StartPlan {
    pub program: String,
    pub args: Vec<String>,
    pub working_dir: String,
    pub env_var: Option<EnvVar>,
    pub logs: Vec<String>,
}

/// What `finish_start` hands back: the full log to broadcast, and the
/// result for the caller.
pub struct StartOutcome {
    pub full_log: String,
    pub result: Result<String, String>,
}

/// Supervises the one backend process of this host session.
pub struct ProcessSupervisor {
    pub mode: Mode,
    /// The spawned backend's process identifier, while one is known.
    pub backend_pid: Option<u32>,
}

pub open spec fn string_views(s: Seq<String>) -> Seq<Seq<char>> {
    s.map_values(|x: String| x@)
}

/// The command-line arguments for each mode.
pub open spec fn start_args(mode: Mode) -> Seq<Seq<char>> {
    if mode is Development {
        seq!["run"@, "--directory"@, agent_dir_chars(), "dawei"@, "server"@, "start"@]
    } else {
        seq!["run"@, "dawei"@, "server"@, "start"@]
    }
}

/// The log lines `plan_start` writes, one per resolution step.
pub open spec fn start_logs(mode: Mode, uv: Seq<char>, exe_dir: Seq<char>) -> Seq<Seq<char>> {
    if mode is Development {
        seq![
            "[start_backend] Starting backend server..."@,
            "[start_backend] Package manager: "@ + uv,
            "[start_backend] Executable directory: "@ + exe_dir,
            "[start_backend] Detected development mode"@,
            "[start_backend] Working directory: "@ + agent_dir_chars(),
            "[start_backend] Full command: "@ + uv + " run --directory "@ + agent_dir_chars()
                + " dawei server start"@,
        ]
    } else {
        seq![
            "[start_backend] Starting backend server..."@,
            "[start_backend] Package manager: "@ + uv,
            "[start_backend] Executable directory: "@ + exe_dir,
            "[start_backend] Detected standalone mode"@,
            "[start_backend] Working directory: "@ + exe_dir,
            "[start_backend] Environment: VIRTUAL_ENV="@ + path_join(
                exe_dir,
                "resources/python-env"@,
            ),
            "[start_backend] Full command: "@ + uv + " run dawei server start"@,
        ]
    }
}

/// The line recording a successful spawn.
pub open spec fn spawn_ok_line(pid: u32) -> Seq<char> {
    "[start_backend] Backend process started (PID: "@ + dec_digits(pid as nat) + ")"@
}

/// The error reported when the spawn fails: it names the path that was
/// tried and carries the system's own error text.
pub open spec fn spawn_err_line(program: Seq<char>, os_error: Seq<char>) -> Seq<char> {
    "[start_backend] Failed to start backend at "@ + program + ": "@ + os_error
}

/// Lines joined with single newlines.
pub open spec fn joined_tail(lines: Seq<Seq<char>>) -> Seq<char>
    decreases lines.len(),
{
    if lines.len() == 0 {
        Seq::<char>::empty()
    } else {
        seq!['\n'] + lines[0] + joined_tail(lines.skip(1))
    }
}

pub open spec fn joined_lines(lines: Seq<Seq<char>>) -> Seq<char> {
    if lines.len() == 0 {
        Seq::<char>::empty()
    } else {
        lines[0] + joined_tail(lines.skip(1))
    }
}

pub proof fn lemma_joined_tail_snoc(lines: Seq<Seq<char>>, x: Seq<char>)
    ensures
        joined_tail(lines.push(x)) == joined_tail(lines) + seq!['\n'] + x,
    decreases lines.len(),
{
    if lines.len() == 0 {
        assert(lines.push(x)[0] == x);
        assert(lines.push(x).skip(1) =~= Seq::<Seq<char>>::empty());
        assert(joined_tail(lines.push(x)) == seq!['\n'] + x + joined_tail(
            Seq::<Seq<char>>::empty(),
        ));
        assert(seq!['\n'] + x + Seq::<char>::empty() =~= Seq::<char>::empty() + seq!['\n'] + x);
    } else {
        lemma_joined_tail_snoc(lines.skip(1), x);
        assert(lines.push(x).skip(1) =~= lines.skip(1).push(x));
        assert(lines.push(x)[0] == lines[0]);
        assert(seq!['\n'] + lines[0] + (joined_tail(lines.skip(1)) + seq!['\n'] + x) =~= (seq![
            '\n',
        ] + lines[0] + joined_tail(lines.skip(1))) + seq!['\n'] + x);
    }
}

pub proof fn lemma_joined_snoc(lines: Seq<Seq<char>>, x: Seq<char>)
    requires
        lines.len() > 0,
    ensures
        joined_lines(lines.push(x)) == joined_lines(lines) + seq!['\n'] + x,
{
    lemma_joined_tail_snoc(lines.skip(1), x);
    assert(lines.push(x)[0] == lines[0]);
    assert(lines.push(x).skip(1) =~= lines.skip(1).push(x));
    assert(lines[0] + (joined_tail(lines.skip(1)) + seq!['\n'] + x) =~= (lines[0] + joined_tail(
        lines.skip(1),
    )) + seq!['\n'] + x);
}

/// Joins log lines with newlines, exactly as `joined_lines` states.
pub fn join_log_lines(lines: &Vec<String>) -> (r: String)
    ensures
        r@ == joined_lines(string_views(lines@)),
{
    let mut r = String::new();
    if lines.len() == 0 {
        return r;
    }
    r.append(lines[0].as_str());
    let mut i: usize = 1;
    proof {
        assert(string_views(lines@).take(1)[0] == lines@[0]@);
        assert(string_views(lines@).take(1).skip(1) =~= Seq::<Seq<char>>::empty());
        assert(r@ =~= joined_lines(string_views(lines@).take(1)));
    }
    while i < lines.len()
        invariant
            1 <= i <= lines@.len(),
            r@ == joined_lines(string_views(lines@).take(i as int)),
        decreases lines@.len() - i,
    {
        crate::chars::push_char(&mut r, '\n');
        r.append(lines[i].as_str());
        proof {
            let vs = string_views(lines@);
            lemma_joined_snoc(vs.take(i as int), vs[i as int]);
            assert(vs.take(i + 1 as int) =~= vs.take(i as int).push(vs[i as int]));
            assert(r@ =~= joined_lines(vs.take(i + 1 as int)));
        }
        i = i + 1;
    }
    proof {
        assert(string_views(lines@).take(lines@.len() as int) =~= string_views(lines@));
    }
    r
}

impl ProcessSupervisor {
    pub fn new(mode: Mode) -> (r: ProcessSupervisor)
        ensures
            r.mode == mode,
            r.backend_pid is None,
    {
        ProcessSupervisor { mode, backend_pid: None }
    }

    /// Builds the spawn plan for the current mode: the exact arguments,
    /// working directory and environment, and one log line per step.
    pub fn plan_start(&self, uv_path: &str, exe_dir: &str) -> (p: StartPlan)
        ensures
            p.program@ == uv_path@,
            string_views(p.args@) == start_args(self.mode),
            string_views(p.logs@) == start_logs(self.mode, uv_path@, exe_dir@),
            self.mode is Development ==> p.working_dir@ == agent_dir_chars(),
            self.mode is Development ==> p.env_var is None,
            self.mode is Standalone ==> p.working_dir@ == exe_dir@,
            self.mode is Standalone ==> (p.env_var matches Some(e) && e.name@ == "VIRTUAL_ENV"@
                && e.value@ == path_join(exe_dir@, "resources/python-env"@)),
    {
        let program = copy_str(uv_path);
        let mut logs: Vec<String> = Vec::new();
        push_line0(&mut logs, "[start_backend] Starting backend server...");
        push_line(&mut logs, "[start_backend] Package manager: ", uv_path);
        push_line(&mut logs, "[start_backend] Executable directory: ", exe_dir);
        match self.mode {
            Mode::Development => {
                let mut args: Vec<String> = Vec::new();
                push_arg(&mut args, "run");
                push_arg(&mut args, "--directory");
                push_arg(&mut args, "/home/dev007/ws/davybot-proxy/agent");
                push_arg(&mut args, "dawei");
                push_arg(&mut args, "server");
                push_arg(&mut args, "start");
                push_line0(&mut logs, "[start_backend] Detected development mode");
                push_line(
                    &mut logs,
                    "[start_backend] Working directory: ",
                    "/home/dev007/ws/davybot-proxy/agent",
                );
                let mut cmd = copy_str(uv_path);
                cmd.append(" run --directory ");
                cmd.append("/home/dev007/ws/davybot-proxy/agent");
                cmd.append(" dawei server start");
                push_line(&mut logs, "[start_backend] Full command: ", cmd.as_str());
                let working_dir = copy_str("/home/dev007/ws/davybot-proxy/agent");
                proof {
                    assert(string_views(args@) =~= start_args(self.mode));
                    assert(string_views(logs@) =~~= start_logs(self.mode, uv_path@, exe_dir@));
                }
                StartPlan { program, args, working_dir, env_var: None, logs }
            },
            Mode::Standalone => {
                let mut args: Vec<String> = Vec::new();
                push_arg(&mut args, "run");
                push_arg(&mut args, "dawei");
                push_arg(&mut args, "server");
                push_arg(&mut args, "start");
                let venv = crate::locator::join_path(exe_dir, "resources/python-env");
                push_line0(&mut logs, "[start_backend] Detected standalone mode");
                push_line(&mut logs, "[start_backend] Working directory: ", exe_dir);
                push_line(
                    &mut logs,
                    "[start_backend] Environment: VIRTUAL_ENV=",
                    venv.as_str(),
                );
                let mut cmd = copy_str(uv_path);
                cmd.append(" run dawei server start");
                push_line(&mut logs, "[start_backend] Full command: ", cmd.as_str());
                let working_dir = copy_str(exe_dir);
                let name = copy_str("VIRTUAL_ENV");
                proof {
                    assert(string_views(args@) =~= start_args(self.mode));
                    assert(string_views(logs@) =~~= start_logs(self.mode, uv_path@, exe_dir@));
                }
                StartPlan { program, args, working_dir, env_var: Some(EnvVar { name, value: venv }), logs }
            },
        }
    }

    /// Records the spawn outcome. On success the process identifier is
    /// kept and the joined log is returned; on failure nothing is recorded
    /// and the error names the path that was tried, with the system's own
    /// error text. Either way the full log is handed back for broadcast.
    pub fn finish_start(&mut self, plan: StartPlan, outcome: Result<u32, String>) -> (r:
        StartOutcome)
        ensures
            final(self).mode == old(self).mode,
            outcome matches Ok(pid) ==> final(self).backend_pid == Some(pid),
            outcome matches Ok(pid) ==> (r.result matches Ok(m) && m@ == r.full_log@
                && r.full_log@ == joined_lines(string_views(plan.logs@).push(spawn_ok_line(pid)))),
            outcome matches Err(e) ==> final(self).backend_pid == old(self).backend_pid,
            outcome matches Err(e) ==> (r.result matches Err(m) && m@ == spawn_err_line(
                plan.program@,
                e@,
            ) && r.full_log@ == joined_lines(
                string_views(plan.logs@).push(spawn_err_line(plan.program@, e@)),
            )),
    {
        let mut logs = plan.logs;
        match outcome {
            Ok(pid) => {
                let mut line: Vec<char> = Vec::new();
                push_str_chars(&mut line, "[start_backend] Backend process started (PID: ");
                push_dec_u64(&mut line, pid as u64);
                push_str_chars(&mut line, ")");
                proof {
                    assert(line@ =~= spawn_ok_line(pid));
                }
                let line_s = string_of_chars(&line);
                proof {
                    assert(string_views(logs@.push(line_s)) =~= string_views(logs@).push(
                        spawn_ok_line(pid),
                    ));
                }
                logs.push(line_s);
                let full_log = join_log_lines(&logs);
                let message = full_log.clone();
                self.backend_pid = Some(pid);
                StartOutcome { full_log, result: Ok(message) }
            },
            Err(e) => {
                let mut line: Vec<char> = Vec::new();
                push_str_chars(&mut line, "[start_backend] Failed to start backend at ");
                push_str_chars(&mut line, plan.program.as_str());
                push_str_chars(&mut line, ": ");
                push_str_chars(&mut line, e.as_str());
                proof {
                    assert(line@ =~= spawn_err_line(plan.program@, e@));
                }
                let line_s = string_of_chars(&line);
                let err_msg = line_s.clone();
                proof {
                    assert(string_views(logs@.push(line_s)) =~= string_views(logs@).push(
                        spawn_err_line(plan.program@, e@),
                    ));
                }
                logs.push(line_s);
                let full_log = join_log_lines(&logs);
                StartOutcome { full_log, result: Err(err_msg) }
            },
        }
    }

    /// The process to signal for a stop. With no backend known there is no
    /// stop mechanism, which is an error, not a silent no-op.
    pub fn plan_stop(&self) -> (r: Result<u32, String>)
        ensures
            self.backend_pid matches Some(pid) ==> r matches Ok(p) && p == pid,
            self.backend_pid is None ==> (r matches Err(e) && e@
                == "No running backend process to stop"@),
    {
        match self.backend_pid {
            Some(pid) => Ok(pid),
            None => {
                let e = String::new();
                Err(e.concat("No running backend process to stop"))
            },
        }
    }

    /// Records the stop outcome: on success the handle is dropped, on
    /// failure it is kept and the system's error is surfaced verbatim.
    pub fn finish_stop(&mut self, outcome: Result<String, String>) -> (r: Result<String, String>)
        ensures
            final(self).mode == old(self).mode,
            outcome matches Ok(m) ==> final(self).backend_pid is None,
            outcome matches Ok(m) ==> (r matches Ok(rm) && rm@ == m@),
            outcome matches Err(e) ==> final(self).backend_pid == old(self).backend_pid,
            outcome matches Err(e) ==> (r matches Err(re) && re@ == e@),
    {
        match outcome {
            Ok(m) => {
                self.backend_pid = None;
                Ok(m)
            },
            Err(e) => Err(e),
        }
    }
}

/// The whole restart policy, decided from the stop's result.
pub enum RestartStep {
    /// The stop succeeded: wait out the cool-down, then start.
    Proceed { cooldown_ms: u64 },
    /// The stop failed: report its error; the start is never attempted.
    Abort { error: String },
}

/// A restart is a stop, then — only on its success — a start after a fixed
/// non-zero cool-down. A failed stop aborts the restart with the stop's own
/// error, and no start happens.
pub fn restart_decision(stop_result: Result<String, String>) -> (r: RestartStep)
    ensures
        stop_result matches Ok(m) ==> (r matches RestartStep::Proceed { cooldown_ms }
            && cooldown_ms == RESTART_COOLDOWN_MS && cooldown_ms > 0),
        stop_result matches Err(e) ==> (r matches RestartStep::Abort { error } && error@ == e@),
{
    match stop_result {
        Ok(_) => RestartStep::Proceed { cooldown_ms: RESTART_COOLDOWN_MS },
        Err(e) => RestartStep::Abort { error: e },
    }
}

/// A fresh owned copy of a borrowed string.
fn copy_str(s: &str) -> (r: String)
    ensures
        r@ == s@,
{
    let r = String::new();
    r.concat(s)
}

/// Appends one fixed log line.
fn push_line0(logs: &mut Vec<String>, line: &str)
    ensures
        final(logs)@.len() == old(logs)@.len() + 1,
        string_views(final(logs)@) == string_views(old(logs)@).push(line@),
{
    logs.push(copy_str(line));
    proof {
        assert(string_views(logs@) =~= string_views(old(logs)@).push(line@));
    }
}

/// Appends `prefix` + `rest` as one new log line.
fn push_line(logs: &mut Vec<String>, prefix: &str, rest: &str)
    ensures
        final(logs)@.len() == old(logs)@.len() + 1,
        string_views(final(logs)@) == string_views(old(logs)@).push(prefix@ + rest@),
{
    let mut line = copy_str(prefix);
    line.append(rest);
    logs.push(line);
    proof {
        assert(string_views(logs@) =~= string_views(old(logs)@).push(prefix@ + rest@));
    }
}

/// Appends one argument word.
fn push_arg(args: &mut Vec<String>, word: &str)
    ensures
        final(args)@.len() == old(args)@.len() + 1,
        string_views(final(args)@) == string_views(old(args)@).push(word@),
{
    args.push(copy_str(word));
    proof {
        assert(string_views(args@) =~= string_views(old(args)@).push(word@));
    }
}

} // verus!
