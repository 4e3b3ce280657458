//! Log severity levels used by the supervisor's log lines.

use vstd::prelude::*;

verus! {

/// Severity tag carried by every log line.
pub enum LogInfo {
    Debug,
    Error,
    Info,
    Warn,
}

impl LogInfo {
    /// True exactly for the `Debug` severity, which release builds suppress.
    pub fn is_debug(&self) -> (r: bool)
        ensures
            r == (self is Debug),
    {
        matches!(self, LogInfo::Debug)
    }
}

} // verus!
