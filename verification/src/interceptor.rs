//! Turning a fatal failure into a crash report: composing the message from
//! the failure payload and source location, and rendering the delimited
//! console dump. The process-wide hook itself is installed by the embedding
//! application; the one-way installed state is modelled here.

use vstd::prelude::*;
use vstd::string::*;

use crate::chars::{push_dec_u64, push_str_chars, string_of_chars};
use crate::report::CrashReport;

verus! {

/// The one-way state of the process-wide failure hook.
#[derive(Clone, Copy, Debug, PartialEq, Eq, Structural)]
pub enum HookState {
    Uninstalled,
    Installed,
}

/// Catches otherwise-fatal failures once installed. Installing twice simply
/// replaces the first hook.
pub struct FailureInterceptor {
    pub state: HookState,
}

impl FailureInterceptor {
    pub fn new() -> (r: FailureInterceptor)
        ensures
            r.state is Uninstalled,
    {
        FailureInterceptor { state: HookState::Uninstalled }
    }

    /// Installation is idempotent: from any state it ends Installed, and it
    /// never goes back.
    pub fn install(&mut self)
        ensures
            final(self).state is Installed,
    {
        self.state = HookState::Installed;
    }
}

/// The failure's source position, where the platform provides one.
pub struct PanicSite {
    pub file: String,
    pub line: u64,
    pub column: u64,
}

/// The text used when the failure payload is not a recognized string type.
pub open spec fn unknown_panic_chars() -> Seq<char> {
    "Unknown panic"@
}

/// The location prefix, `Panic at <file>:<line>:<column>: `.
pub open spec fn site_prefix_chars(file: Seq<char>, line: u64, column: u64) -> Seq<char> {
    "Panic at "@ + file + seq![':'] + crate::chars::dec_digits(line as nat) + seq![':']
        + crate::chars::dec_digits(column as nat) + ": "@
}

/// Builds the report message for one failure: the payload text, or a fixed
/// placeholder where no string payload was recognized, prefixed with the
/// source location when the platform gave one.
pub fn compose_panic_message(payload: Option<String>, site: Option<PanicSite>) -> (r: String)
    ensures
        payload is None && site is None ==> r@ == unknown_panic_chars(),
        site is None ==> (payload matches Some(p) ==> r@ == p@),
        site matches Some(s) ==> (payload matches Some(p) ==> r@ == site_prefix_chars(
            s.file@,
            s.line,
            s.column,
        ) + p@),
        site matches Some(s) ==> (payload is None ==> r@ == site_prefix_chars(
            s.file@,
            s.line,
            s.column,
        ) + unknown_panic_chars()),
{
    let mut out: Vec<char> = Vec::new();
    let ghost mut prefix = Seq::<char>::empty();
    match &site {
        Some(s) => {
            push_str_chars(&mut out, "Panic at ");
            push_str_chars(&mut out, s.file.as_str());
            out.push(':');
            push_dec_u64(&mut out, s.line);
            out.push(':');
            push_dec_u64(&mut out, s.column);
            push_str_chars(&mut out, ": ");
            proof {
                prefix = site_prefix_chars(s.file@, s.line, s.column);
                assert(out@ =~= prefix);
            }
        },
        None => {
            proof {
                assert(out@ =~= prefix);
            }
        },
    }
    match &payload {
        Some(p) => {
            push_str_chars(&mut out, p.as_str());
            proof {
                assert(out@ =~= prefix + p@);
            }
        },
        None => {
            push_str_chars(&mut out, "Unknown panic");
            proof {
                assert(out@ =~= prefix + unknown_panic_chars());
            }
        },
    }
    let r = string_of_chars(&out);
    proof {
        if site is None {
            assert(Seq::<char>::empty() + r@ =~= r@);
            match payload {
                Some(p) => assert(r@ =~= p@),
                None => assert(r@ =~= unknown_panic_chars()),
            }
        }
    }
    r
}

/// The delimiter above and below the console dump: sixty equals signs.
pub open spec fn banner_chars() -> Seq<char> {
    Seq::<char>::new(60, |i: int| '=')
}

pub fn banner_line() -> (r: String)
    ensures
        r@ == banner_chars(),
{
    let mut out: Vec<char> = Vec::new();
    let mut i: usize = 0;
    while i < 60
        invariant
            i <= 60,
            out@ =~= Seq::<char>::new(i as nat, |k: int| '='),
        decreases 60 - i,
    {
        out.push('=');
        proof {
            assert(out@ =~= Seq::<char>::new((i + 1) as nat, |k: int| '='));
        }
        i = i + 1;
    }
    string_of_chars(&out)
}

/// The clearly delimited, human-readable dump of a report, written to the
/// diagnostic stream before the process terminates.
pub open spec fn crash_dump_chars(v: crate::report::ReportView) -> Seq<char> {
    seq!['\n'] + banner_chars() + seq!['\n'] + "APPLICATION PANIC"@ + seq!['\n'] + banner_chars()
        + seq!['\n'] + CrashReport::display_chars(v) + seq!['\n'] + banner_chars() + seq!['\n']
        + seq!['\n']
}

pub fn format_crash_dump(report: &CrashReport) -> (r: String)
    ensures
        r@ == crash_dump_chars(report@),
{
    let banner = banner_line();
    let display = report.format_display();
    let mut out: Vec<char> = Vec::new();
    out.push('\n');
    push_str_chars(&mut out, banner.as_str());
    out.push('\n');
    push_str_chars(&mut out, "APPLICATION PANIC");
    out.push('\n');
    push_str_chars(&mut out, banner.as_str());
    out.push('\n');
    push_str_chars(&mut out, display.as_str());
    out.push('\n');
    push_str_chars(&mut out, banner.as_str());
    out.push('\n');
    out.push('\n');
    proof {
        assert(out@ =~= crash_dump_chars(report@));
    }
    string_of_chars(&out)
}

} // verus!
