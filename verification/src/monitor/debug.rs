//! Debug log levels and their terminal presentation.

use vstd::prelude::*;

verus! {

/// Debug log levels.
#[derive(Debug, Clone, Copy, PartialEq, Eq, Structural)]
pub enum Level {
    /// Tracing entry/exit of functions
    Trace,
    /// Debug information
    Debug,
    /// Informational messages
    Info,
    /// Warnings
    Warn,
    /// Errors
    Error,
}

impl Level {
    /// The level's name as printed in log lines.
    pub fn as_str(&self) -> (s: &'static str)
        ensures
            s@ == (match *self {
                Level::Trace => "TRACE"@,
                Level::Debug => "DEBUG"@,
                Level::Info => "INFO"@,
                Level::Warn => "WARN"@,
                Level::Error => "ERROR"@,
            }),
    {
        match self {
            Level::Trace => "TRACE",
            Level::Debug => "DEBUG",
            Level::Info => "INFO",
            Level::Warn => "WARN",
            Level::Error => "ERROR",
        }
    }

    /// The ANSI escape sequence that colors the level's log lines.
    pub fn color_code(&self) -> (s: &'static str)
        ensures
            s@ == (match *self {
                Level::Trace => "\x1b[90m"@,
                Level::Debug => "\x1b[36m"@,
                Level::Info => "\x1b[32m"@,
                Level::Warn => "\x1b[33m"@,
                Level::Error => "\x1b[31m"@,
            }),
    {
        match self {
            Level::Trace => "\x1b[90m",
            Level::Debug => "\x1b[36m",
            Level::Info => "\x1b[32m",
            Level::Warn => "\x1b[33m",
            Level::Error => "\x1b[31m",
        }
    }
}

} // verus!
