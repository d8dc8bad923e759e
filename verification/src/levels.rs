//! Severity levels of messages that the presentation layer hands in.

use vstd::prelude::*;
use vstd::string::*;
use vstd::utf8::*;

verus! {

/// The severity under which a message is logged.
#[derive(Clone, Copy, Debug, PartialEq, Eq, Structural)]
pub enum LogLevel {
    Error,
    Warn,
    Info,
    Debug,
}

/// The level that a name stands for. `trace` is logged as debug output,
/// and a name that is not known as information.
pub open spec fn level_of(name: Seq<char>) -> LogLevel {
    if name == "error"@ {
        LogLevel::Error
    } else if name == "warn"@ {
        LogLevel::Warn
    } else if name == "debug"@ || name == "trace"@ {
        LogLevel::Debug
    } else {
        LogLevel::Info
    }
}

/// Whether two texts are the same.
pub fn same_text(left: &str, right: &str) -> (same: bool)
    ensures
        same == (left@ == right@),
{
    broadcast use vstd::utf8::encode_utf8_decode_utf8;

    let a = left.as_bytes();
    let b = right.as_bytes();
    assert(decode_utf8(encode_utf8(left@)) == left@);
    assert(decode_utf8(encode_utf8(right@)) == right@);
    if a.len() != b.len() {
        return false;
    }
    let mut i: usize = 0;
    while i < a.len()
        invariant
            i <= a.len(),
            a@.len() == b@.len(),
            a@ == encode_utf8(left@),
            b@ == encode_utf8(right@),
            decode_utf8(encode_utf8(left@)) == left@,
            decode_utf8(encode_utf8(right@)) == right@,
            forall|j: int| 0 <= j < i ==> a@[j] == b@[j],
        decreases a.len() - i,
    {
        if a[i] != b[i] {
            return false;
        }
        i += 1;
    }
    assert(a@ =~= b@);
    true
}

/// Picks the level for a message from the name the sender gave.
pub fn classify_level(name: &str) -> (level: LogLevel)
    ensures
        level == level_of(name@),
{
    if same_text(name, "error") {
        LogLevel::Error
    } else if same_text(name, "warn") {
        LogLevel::Warn
    } else if same_text(name, "debug") || same_text(name, "trace") {
        LogLevel::Debug
    } else {
        LogLevel::Info
    }
}

/// After how many lines the tail loop reports its progress in the log.
pub const PROGRESS_EVERY_LINES: u64 = 100;

/// After how many seconds without a report the next line brings one.
pub const PROGRESS_EVERY_SECONDS: u64 = 5;

/// Whether a line is due a progress report: every hundredth line is, and
/// so is any line that comes five seconds or more after the last report.
pub open spec fn progress_due_at(lines: u64, seconds_since_report: u64) -> bool {
    lines % PROGRESS_EVERY_LINES == 0 || seconds_since_report >= PROGRESS_EVERY_SECONDS
}

/// Says whether the line that brings the count to `lines` is due a progress
/// report, `seconds_since_report` after the last one.
pub fn progress_due(lines: u64, seconds_since_report: u64) -> (due: bool)
    ensures
        due == progress_due_at(lines, seconds_since_report),
{
    lines % PROGRESS_EVERY_LINES == 0 || seconds_since_report >= PROGRESS_EVERY_SECONDS
}

} // verus!
