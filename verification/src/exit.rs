//! The automated-test exit signal.
//!
//! A test harness outside the machine watches for a single exit call with a
//! binary success/failure code.  Deciding the code is logic; writing it to
//! the debug-exit port is hardware I/O and stays with the rest of the
//! hardware glue.

use vstd::prelude::*;

verus! {

/// Outcome reported to the automated test harness.
#[derive(Clone, Copy, PartialEq, Eq, Structural, Debug)]
pub enum QemuExitCode {
    Success,
    Failed,
}

impl QemuExitCode {
    /// The wire value the debug-exit device expects for this outcome.
    pub fn code(&self) -> (c: u32)
        ensures
            *self == QemuExitCode::Success ==> c == 0x10,
            *self == QemuExitCode::Failed ==> c == 0x11,
    {
        match self {
            QemuExitCode::Success => 0x10,
            QemuExitCode::Failed => 0x11,
        }
    }
}

} // verus!
