//! Log-level policy: which messages pass the configured threshold.

use vstd::prelude::*;

verus! {

broadcast use vstd::string::group_string_axioms;

/// Severity levels for host-side diagnostics, least severe first.
#[derive(Clone, Copy, Debug, PartialEq, Eq, Structural)]
pub enum LogLevel {
    Debug,
    Info,
    Warn,
    Error,
}

/// Numeric rank of a level; higher means more severe.
pub open spec fn severity(level: LogLevel) -> int {
    match level {
        LogLevel::Debug => 0,
        LogLevel::Info => 1,
        LogLevel::Warn => 2,
        LogLevel::Error => 3,
    }
}

fn severity_rank(level: LogLevel) -> (r: u8)
    ensures
        r as int == severity(level),
{
    match level {
        LogLevel::Debug => 0,
        LogLevel::Info => 1,
        LogLevel::Warn => 2,
        LogLevel::Error => 3,
    }
}

/// A message at `level` is emitted exactly when it is at least as severe as
/// the configured threshold.
pub fn should_log(level: LogLevel, configured: LogLevel) -> (r: bool)
    ensures
        r == (severity(level) >= severity(configured)),
{
    severity_rank(level) >= severity_rank(configured)
}

/// Reads a level name, case-insensitively: `debug`, `info`, `warn` (or
/// `warning`), `error`; anything else is no level, and the caller falls
/// back to its default.
pub fn level_from_name(s: &str) -> (r: Option<LogLevel>)
    ensures
        ({
            let l = crate::util::lower_str(s@);
            &&& l == "debug"@ ==> r == Some(LogLevel::Debug)
            &&& l == "info"@ ==> r == Some(LogLevel::Info)
            &&& (l == "warn"@ || l == "warning"@) ==> r == Some(LogLevel::Warn)
            &&& l == "error"@ ==> r == Some(LogLevel::Error)
            &&& (l != "debug"@ && l != "info"@ && l != "warn"@ && l != "warning"@ && l
                != "error"@) ==> r is None
        }),
{
    proof {
        reveal_strlit("debug");
        reveal_strlit("info");
        reveal_strlit("warn");
        reveal_strlit("warning");
        reveal_strlit("error");
    }
    proof {
        assert("debug"@[0] == 'd' && "error"@[0] == 'e' && "info"@[0] == 'i' && "warn"@[0]
            == 'w');
        assert("debug"@.len() == 5 && "info"@.len() == 4 && "warn"@.len() == 4
            && "warning"@.len() == 7 && "error"@.len() == 5);
        assert("debug"@ != "info"@ && "debug"@ != "warn"@ && "debug"@ != "warning"@
            && "debug"@ != "error"@);
        assert("info"@ != "warn"@ && "info"@ != "warning"@ && "info"@ != "error"@);
        assert("warn"@ != "warning"@ && "warn"@ != "error"@);
        assert("warning"@ != "error"@);
    }
    let low = crate::util::ascii_lower(s);
    if crate::util::str_eq(low.as_str(), "debug") {
        Some(LogLevel::Debug)
    } else if crate::util::str_eq(low.as_str(), "info") {
        Some(LogLevel::Info)
    } else if crate::util::str_eq(low.as_str(), "warn") || crate::util::str_eq(
        low.as_str(),
        "warning",
    ) {
        Some(LogLevel::Warn)
    } else if crate::util::str_eq(low.as_str(), "error") {
        Some(LogLevel::Error)
    } else {
        None
    }
}

} // verus!
