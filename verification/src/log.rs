//! Log levels as they cross the module boundary.

use vstd::prelude::*;

verus! {

/// The level of a log record. Across the module boundary a level travels as
/// a number, starting at 1 for `Error`.
#[derive(Debug, Clone, Copy, PartialEq, Eq, Structural)]
pub enum LogLevel {
    Error,
    Warn,
    Info,
    Debug,
    Trace,
}

impl LogLevel {
    /// The number that stands for the level.
    pub open spec fn raw_spec(&self) -> u32 {
        match self {
            LogLevel::Error => 1,
            LogLevel::Warn => 2,
            LogLevel::Info => 3,
            LogLevel::Debug => 4,
            LogLevel::Trace => 5,
        }
    }

    /// The number that stands for the level.
    pub fn as_raw(&self) -> (raw: u32)
        ensures
            raw == self.raw_spec(),
    {
        match self {
            LogLevel::Error => 1,
            LogLevel::Warn => 2,
            LogLevel::Info => 3,
            LogLevel::Debug => 4,
            LogLevel::Trace => 5,
        }
    }

    /// The level that a number stands for, if it stands for one.
    pub fn from_raw(raw: u32) -> (level: Option<LogLevel>)
        ensures
            match level {
                Some(l) => l.raw_spec() == raw,
                None => raw < 1 || raw > 5,
            },
    {
        if raw == 1 {
            Some(LogLevel::Error)
        } else if raw == 2 {
            Some(LogLevel::Warn)
        } else if raw == 3 {
            Some(LogLevel::Info)
        } else if raw == 4 {
            Some(LogLevel::Debug)
        } else if raw == 5 {
            Some(LogLevel::Trace)
        } else {
            None
        }
    }
}

} // verus!
