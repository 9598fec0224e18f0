//! Helpers for tests of the SDK: reading a log level name.

use vstd::prelude::*;

use crate::text::{ascii_lower, char_ascii_lower, chars_equal, chars_of};

verus! {

/// Environment variable that disables the tests that need root.
pub const ROOT_DISABLE_ENV_NAME: &'static str = "DISABLE_ROOT_TESTS";
/// Environment variable that sets the log level of the tests.
pub const LOG_LEVEL_ENV_NAME: &'static str = "FC_TEST_LOG_LEVEL";

/// The levels of the `tracing` crate.
#[derive(Debug, Clone, Copy, PartialEq, Eq)]
pub enum LogLevel {
    Error,
    Warn,
    Info,
    Debug,
    Trace,
}

/// `tracing`'s level type, carried through unchanged.
#[verifier::external_type_specification]
#[verifier::external_body]
pub struct ExTracingLevel(tracing::Level);

/// The `tracing` level that stands for a level.
pub uninterp spec fn tracing_level(level: LogLevel) -> tracing::Level;

/// The `tracing` level constant of a level: `Level::ERROR` for
/// [`LogLevel::Error`], and so on. The contract only names the result.
#[verifier::external_body]
fn to_tracing_level(level: LogLevel) -> (r: tracing::Level)
    ensures
        r == tracing_level(level),
{
    match level {
        LogLevel::Error => tracing::Level::ERROR,
        LogLevel::Warn => tracing::Level::WARN,
        LogLevel::Info => tracing::Level::INFO,
        LogLevel::Debug => tracing::Level::DEBUG,
        LogLevel::Trace => tracing::Level::TRACE,
    }
}

/// The level that a name stands for, ignoring ASCII case: `error`, `warn`
/// or `warning`, `info`, `debug` and `trace`.
pub open spec fn log_level_spec(name: Seq<char>) -> Option<LogLevel> {
    let l = name.map_values(|c: char| ascii_lower(c));
    if l == "error"@ {
        Some(LogLevel::Error)
    } else if l == "warn"@ || l == "warning"@ {
        Some(LogLevel::Warn)
    } else if l == "info"@ {
        Some(LogLevel::Info)
    } else if l == "debug"@ {
        Some(LogLevel::Debug)
    } else if l == "trace"@ {
        Some(LogLevel::Trace)
    } else {
        None
    }
}

/// The level that a name stands for.
pub fn log_level_from_name(level: &str) -> (r: Option<LogLevel>)
    ensures
        r == log_level_spec(level@),
{
    let c = chars_of(level);
    let mut lower: Vec<char> = Vec::new();
    let mut i: usize = 0;
    while i < c.len()
        invariant
            i <= c.len(),
            c@ == level@,
            lower@ == c@.take(i as int).map_values(|ch: char| ascii_lower(ch)),
        decreases c.len() - i,
    {
        lower.push(char_ascii_lower(c[i]));
        assert(lower@ =~= c@.take(i as int + 1).map_values(|ch: char| ascii_lower(ch)));
        i = i + 1;
    }
    assert(c@.take(c.len() as int) =~= c@);
    if chars_equal(&lower, &chars_of("error")) {
        Some(LogLevel::Error)
    } else if chars_equal(&lower, &chars_of("warn")) || chars_equal(&lower, &chars_of("warning")) {
        Some(LogLevel::Warn)
    } else if chars_equal(&lower, &chars_of("info")) {
        Some(LogLevel::Info)
    } else if chars_equal(&lower, &chars_of("debug")) {
        Some(LogLevel::Debug)
    } else if chars_equal(&lower, &chars_of("trace")) {
        Some(LogLevel::Trace)
    } else {
        None
    }
}

/// The `tracing` level that a name stands for.
pub fn parse_log_level(level: &str) -> (r: Option<tracing::Level>)
    ensures
        r == match log_level_spec(level@) {
            Some(k) => Some(tracing_level(k)),
            None => None,
        },
{
    match log_level_from_name(level) {
        Some(k) => Some(to_tracing_level(k)),
        None => None,
    }
}

} // verus!
