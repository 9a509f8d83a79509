//! Errors of the monitoring system.

use vstd::prelude::*;

verus! {

/// `std::io::Error`, carried through unchanged.
#[verifier::external_type_specification]
#[verifier::external_body]
pub struct ExIoError(std::io::Error);

/// Error type for monitoring operations.
#[derive(Debug)]
pub enum MonitorError {
    /// A metric collector is not available on this system.
    CollectorUnavailable(&'static str),
    /// Failed to collect metrics from a collector.
    CollectionFailed {
        /// The collector that failed.
        collector: &'static str,
        /// Error message describing the failure.
        message: String,
    },
    /// Configuration parsing error with line number.
    ConfigParse {
        /// Line number where the error occurred (1-indexed).
        line: usize,
        /// Error message describing the issue.
        message: String,
    },
    /// Configuration file not found.
    ConfigNotFound(String),
    /// Invalid configuration value.
    ConfigInvalid {
        /// The configuration key with invalid value.
        key: String,
        /// Error message describing why the value is invalid.
        message: String,
    },
    /// Theme file not found or invalid.
    ThemeError(String),
    /// Terminal initialization or rendering error.
    TerminalError(std::io::Error),
    /// Ring buffer capacity exceeded (should never happen with bounded buffers).
    BufferOverflow {
        /// Requested operation size.
        requested: usize,
        /// Buffer capacity.
        capacity: usize,
    },
    /// Process not found (for kill/signal operations).
    ProcessNotFound(u32),
    /// Permission denied for operation.
    PermissionDenied(String),
}

impl From<std::io::Error> for MonitorError {
    /// An I/O error becomes a terminal error.
    fn from(e: std::io::Error) -> (r: Self) {
        MonitorError::TerminalError(e)
    }
}

impl vstd::std_specs::convert::FromSpecImpl<std::io::Error> for MonitorError {
    open spec fn obeys_from_spec() -> bool {
        true
    }

    open spec fn from_spec(v: std::io::Error) -> Self {
        MonitorError::TerminalError(v)
    }
}

} // verus!
