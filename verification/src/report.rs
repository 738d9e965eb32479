//! The crash report record: an immutable snapshot of one fatal failure,
//! stamped with the capture time and host identity, and named by a
//! `crash_YYYYMMDD_HHMMSS.json` file name derived from the calendar time.

use vstd::prelude::*;
use vstd::string::*;

use crate::chars::{padded_digits, push_padded, push_str_chars, string_of_chars};

verus! {

/// One captured fatal failure. Created once, never mutated afterwards.
#[derive(Debug)]
pub struct CrashReport {
    /// Seconds since the epoch at capture time (0 for a pre-epoch clock).
    pub timestamp: u64,
    /// ISO-8601 rendering of the capture time, for display only.
    pub timestamp_iso: String,
    /// The proximate cause, free form.
    pub error_message: String,
    /// The captured stack, free form; may be empty where unavailable.
    pub backtrace: String,
    /// Short operating-system identifier.
    pub platform: String,
    /// Version of the host application at capture time.
    pub app_version: String,
    /// Derived on-disk file name, unique per second.
    pub filename: String,
}

/// The mathematical content of a `CrashReport`.
#[verifier::ext_equal]
pub struct ReportView {
    pub timestamp: u64,
    pub timestamp_iso: Seq<char>,
    pub error_message: Seq<char>,
    pub backtrace: Seq<char>,
    pub platform: Seq<char>,
    pub app_version: Seq<char>,
    pub filename: Seq<char>,
}

impl View for CrashReport {
    type V = ReportView;

    open spec fn view(&self) -> ReportView {
        ReportView {
            timestamp: self.timestamp,
            timestamp_iso: self.timestamp_iso@,
            error_message: self.error_message@,
            backtrace: self.backtrace@,
            platform: self.platform@,
            app_version: self.app_version@,
            filename: self.filename@,
        }
    }
}

impl PartialEq for CrashReport {
    fn eq(&self, other: &CrashReport) -> bool {
        self.timestamp == other.timestamp && self.timestamp_iso == other.timestamp_iso
            && self.error_message == other.error_message && self.backtrace == other.backtrace
            && self.platform == other.platform && self.app_version == other.app_version
            && self.filename == other.filename
    }
}

impl vstd::std_specs::cmp::PartialEqSpecImpl for CrashReport {
    open spec fn obeys_eq_spec() -> bool {
        true
    }

    open spec fn eq_spec(&self, other: &CrashReport) -> bool {
        self@ =~= other@
    }
}

/// One reading of the host's local clock, already broken into the parts the
/// report needs.
pub struct ClockReading {
    /// Seconds since the epoch; negative for a pre-epoch clock.
    pub epoch_seconds: i64,
    /// ISO-8601 rendering of the same instant.
    pub iso: String,
    pub year: i32,
    pub month: u32,
    pub day: u32,
    pub hour: u32,
    pub minute: u32,
    pub second: u32,
}

/// The calendar fields lie in their documented ranges.
pub open spec fn clock_wf(c: ClockReading) -> bool {
    &&& 1 <= c.month <= 12
    &&& 1 <= c.day <= 31
    &&& c.hour <= 23
    &&& c.minute <= 59
    &&& c.second <= 59
}

/// Relies on `chrono::Local::now` for the current local time, read out
/// through `DateTime::timestamp` (non-leap seconds since the epoch),
/// `DateTime::to_rfc3339`, and the `chrono::Datelike` / `chrono::Timelike`
/// accessors, whose documentation promises the stated field ranges.
#[verifier::external_body]
fn read_local_clock() -> (r: ClockReading)
    ensures
        clock_wf(r),
{
    let now = chrono::Local::now();
    ClockReading {
        epoch_seconds: now.timestamp(),
        iso: now.to_rfc3339(),
        year: chrono::Datelike::year(&now),
        month: chrono::Datelike::month(&now),
        day: chrono::Datelike::day(&now),
        hour: chrono::Timelike::hour(&now),
        minute: chrono::Timelike::minute(&now),
        second: chrono::Timelike::second(&now),
    }
}

/// Years outside the four-digit range are pinned to its ends in the file
/// name.
pub open spec fn clamped_year(y: int) -> int {
    if y < 0 {
        0
    } else if y > 9999 {
        9999
    } else {
        y
    }
}

/// A pre-epoch clock is recorded as timestamp 0.
pub open spec fn clamped_epoch(s: int) -> u64 {
    if s < 0 {
        0
    } else {
        s as u64
    }
}

/// The derived file name, `crash_` + date + `_` + time + `.json`.
pub open spec fn crash_filename_chars(c: ClockReading) -> Seq<char> {
    "crash_"@ + padded_digits(clamped_year(c.year as int) as nat, 4) + padded_digits(
        c.month as nat,
        2,
    ) + padded_digits(c.day as nat, 2) + seq!['_'] + padded_digits(c.hour as nat, 2)
        + padded_digits(c.minute as nat, 2) + padded_digits(c.second as nat, 2) + ".json"@
}

pub proof fn lemma_crash_filename_shape(c: ClockReading)
    ensures
        crash_filename_chars(c).len() == 26,
        crash_filename_chars(c).subrange(0, 6) == "crash_"@,
        crash_filename_chars(c).subrange(21, 26) == ".json"@,
{
    reveal_strlit("crash_");
    reveal_strlit(".json");
    let n = crash_filename_chars(c);
    crate::chars::lemma_padded_digits_len(clamped_year(c.year as int) as nat, 4);
    crate::chars::lemma_padded_digits_len(c.month as nat, 2);
    crate::chars::lemma_padded_digits_len(c.day as nat, 2);
    crate::chars::lemma_padded_digits_len(c.hour as nat, 2);
    crate::chars::lemma_padded_digits_len(c.minute as nat, 2);
    crate::chars::lemma_padded_digits_len(c.second as nat, 2);
    assert(n.len() == 26);
    assert(n.subrange(0, 6) =~= "crash_"@);
    assert(n.subrange(21, 26) =~= ".json"@);
}

impl CrashReport {
    /// Builds the report from already-captured text and one clock reading.
    /// Pure: every field is a function of the arguments.
    pub fn from_parts(
        error_message: String,
        backtrace: String,
        platform: String,
        app_version: String,
        clock: &ClockReading,
    ) -> (r: CrashReport)
        requires
            clock_wf(*clock),
        ensures
            r.timestamp == clamped_epoch(clock.epoch_seconds as int),
            r.timestamp_iso@ == clock.iso@,
            r.error_message@ == error_message@,
            r.backtrace@ == backtrace@,
            r.platform@ == platform@,
            r.app_version@ == app_version@,
            r.filename@ == crash_filename_chars(*clock),
    {
        let timestamp: u64 = if clock.epoch_seconds < 0 {
            0
        } else {
            clock.epoch_seconds as u64
        };
        let year: u64 = if clock.year < 0 {
            0
        } else if clock.year > 9999 {
            9999
        } else {
            clock.year as u64
        };
        let mut name: Vec<char> = Vec::new();
        push_str_chars(&mut name, "crash_");
        push_padded(&mut name, year, 4);
        push_padded(&mut name, clock.month as u64, 2);
        push_padded(&mut name, clock.day as u64, 2);
        name.push('_');
        push_padded(&mut name, clock.hour as u64, 2);
        push_padded(&mut name, clock.minute as u64, 2);
        push_padded(&mut name, clock.second as u64, 2);
        push_str_chars(&mut name, ".json");
        proof {
            assert(name@ =~= crash_filename_chars(*clock));
        }
        let filename = string_of_chars(&name);
        CrashReport {
            timestamp,
            timestamp_iso: clock.iso.clone(),
            error_message,
            backtrace,
            platform,
            app_version,
            filename,
        }
    }

    /// Builds a report for a failure that happened now: stamps the current
    /// local time and derives the file name from it. The message, backtrace
    /// and host identity are taken over exactly; whatever the clock read,
    /// the file name has the `crash_YYYYMMDD_HHMMSS.json` shape.
    pub fn new(
        error_message: String,
        backtrace: String,
        platform: String,
        app_version: String,
    ) -> (r: CrashReport)
        ensures
            r.error_message@ == error_message@,
            r.backtrace@ == backtrace@,
            r.platform@ == platform@,
            r.app_version@ == app_version@,
            r.filename@.len() == 26,
            r.filename@.subrange(0, 6) == "crash_"@,
            r.filename@.subrange(21, 26) == ".json"@,
    {
        let clock = read_local_clock();
        proof {
            lemma_crash_filename_shape(clock);
        }
        Self::from_parts(error_message, backtrace, platform, app_version, &clock)
    }

    /// The multi-line human-readable rendering of the report.
    pub open spec fn display_chars(v: ReportView) -> Seq<char> {
        "Error: "@ + v.error_message + "\nPlatform: "@ + v.platform + "\nVersion: "@
            + v.app_version + "\nTime: "@ + v.timestamp_iso + "\n\nBacktrace:\n"@ + v.backtrace
    }

    /// Formats the report for display, exactly as `display_chars` states.
    pub fn format_display(&self) -> (r: String)
        ensures
            r@ == Self::display_chars(self@),
    {
        let mut r = String::new();
        r.append("Error: ");
        r.append(self.error_message.as_str());
        r.append("\nPlatform: ");
        r.append(self.platform.as_str());
        r.append("\nVersion: ");
        r.append(self.app_version.as_str());
        r.append("\nTime: ");
        r.append(self.timestamp_iso.as_str());
        r.append("\n\nBacktrace:\n");
        r.append(self.backtrace.as_str());
        proof {
            assert(r@ =~= Self::display_chars(self@));
        }
        r
    }
}

} // verus!
