//! Log lines: a time stamp, the level's label and the message.
use vstd::prelude::*;
use crate::release_notes::{utc_formatted, utc_now_text};
use crate::text::{copy_text, push_text};

verus! {

/// How serious a log message is.
#[derive(Debug, Clone, Copy, PartialEq, Eq, Structural)]
pub enum LogLevel {
    Info,
    Warning,
    Error,
    Success,
}

/// The label of a level.
pub open spec fn level_label(level: LogLevel) -> Seq<char> {
    match level {
        LogLevel::Info => "ℹ️ INFO"@,
        LogLevel::Warning => "⚠️ WARNING"@,
        LogLevel::Error => "❌ ERROR"@,
        LogLevel::Success => "✅ SUCCESS"@,
    }
}

/// The label of a level.
pub fn log_label(level: LogLevel) -> (r: &'static str)
    ensures
        r@ == level_label(level),
{
    match level {
        LogLevel::Info => "ℹ️ INFO",
        LogLevel::Warning => "⚠️ WARNING",
        LogLevel::Error => "❌ ERROR",
        LogLevel::Success => "✅ SUCCESS",
    }
}

/// The time stamp of a log line, in brackets.
pub fn log_stamp(time: &str) -> (r: String)
    ensures
        r@ == "["@ + time@ + "]"@,
{
    let mut r = copy_text("[");
    push_text(&mut r, time);
    push_text(&mut r, "]");
    r
}

/// A log line without colours: `[time] LABEL message`.
pub fn log_line(time: &str, level: LogLevel, message: &str) -> (r: String)
    ensures
        r@ == "["@ + time@ + "]"@ + " "@ + level_label(level) + " "@ + message@,
{
    let mut r = log_stamp(time);
    push_text(&mut r, " ");
    push_text(&mut r, log_label(level));
    push_text(&mut r, " ");
    push_text(&mut r, message);
    r
}

/// The log line of a message at the present time: its stamp is the UTC time
/// of some timestamp as `HH:MM:SS` (the clock gives it); the rest is fixed.
pub fn log_entry(level: LogLevel, message: &str) -> (r: String)
    ensures
        exists|t: i64, time: Seq<char>|
            utc_formatted(t, "%H:%M:%S"@) == Some(time) && r@ == "["@ + time + "]"@ + " "@
                + level_label(level) + " "@ + message@,
{
    proof {
        reveal_strlit("%H:%M:%S");
    }
    let time = utc_now_text("%H:%M:%S");
    log_line(time.as_str(), level, message)
}

} // verus!
