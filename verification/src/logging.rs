//! Reading a logging level from text.

use vstd::prelude::*;

use crate::text::str_eq;

verus! {

/// A logging verbosity level.
#[derive(Clone, Copy, Debug, PartialEq, Eq, Structural)]
pub enum LogLevel {
    Error,
    Warn,
    Info,
    Debug,
    Trace,
}

/// What lowercasing a text yields.
pub uninterp spec fn lower_of(s: Seq<char>) -> Seq<char>;

/// Relies on `str::to_lowercase`: the result depends on the characters
/// alone.
#[verifier::external_body]
fn to_lowercase(s: &str) -> (r: String)
    ensures
        r@ == lower_of(s@),
{
    s.to_lowercase()
}

/// The level a lowercased text names, `Info` for anything unrecognized.
pub open spec fn spec_level_of(s: Seq<char>) -> LogLevel {
    if s == "error"@ {
        LogLevel::Error
    } else if s == "warn"@ {
        LogLevel::Warn
    } else if s == "info"@ {
        LogLevel::Info
    } else if s == "debug"@ {
        LogLevel::Debug
    } else if s == "trace"@ {
        LogLevel::Trace
    } else {
        LogLevel::Info
    }
}

/// Reads a logging level, ignoring case; anything unrecognized falls
/// back to `Info`.
pub fn parse_log_level(log_level: &str) -> (r: Result<LogLevel, String>)
    ensures
        r == Ok::<LogLevel, String>(spec_level_of(lower_of(log_level@))),
{
    let lower = to_lowercase(log_level);
    let s = lower.as_str();
    if str_eq(s, "error") {
        Ok(LogLevel::Error)
    } else if str_eq(s, "warn") {
        Ok(LogLevel::Warn)
    } else if str_eq(s, "info") {
        Ok(LogLevel::Info)
    } else if str_eq(s, "debug") {
        Ok(LogLevel::Debug)
    } else if str_eq(s, "trace") {
        Ok(LogLevel::Trace)
    } else {
        Ok(LogLevel::Info)
    }
}

} // verus!
