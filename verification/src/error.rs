//! The fatal errors of a scan run.
//!
//! Per-port troubles (timeouts, refusals) are never errors: they are absorbed
//! into the port's outcome. Only a bad range and a failed host resolution
//! abort a run, each with its own exit code.

use vstd::prelude::*;

verus! {

/// A fatal, pre-scan failure.
#[derive(Clone, Copy, Debug, PartialEq, Eq, Structural)]
pub enum ScanError {
    /// The configured range has `end < start`; no network activity may follow.
    InvalidRange,
    /// The host did not resolve to any address, or resolution itself failed.
    ResolveFailed,
}

impl ScanError {
    /// The process exit code for this error: validation failures exit with 2,
    /// resolution failures with 1.
    pub fn exit_code(&self) -> (code: i32)
        ensures
            code == (if *self is InvalidRange { 2int } else { 1int }),
    {
        match self {
            ScanError::InvalidRange => 2,
            ScanError::ResolveFailed => 1,
        }
    }

    /// The human-readable message printed to the error stream.
    pub fn message(&self) -> (msg: &'static str)
        ensures
            *self is InvalidRange ==> msg@ == "end must be >= start"@,
            *self is ResolveFailed ==> msg@ == "failed to resolve host"@,
    {
        match self {
            ScanError::InvalidRange => "end must be >= start",
            ScanError::ResolveFailed => "failed to resolve host",
        }
    }
}

} // verus!
