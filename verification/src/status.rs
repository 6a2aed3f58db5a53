//! Classification of a target's termination status.
//!
//! One run of the target ends in a termination status: an exit code, and on
//! platforms that expose one, a terminating signal. A single classification
//! function decides, per platform capability, whether that status counts as a
//! crash: a segmentation-fault signal where signals are visible, the access
//! violation status code where only raw exit codes are.

use vstd::prelude::*;

verus! {

/// The signal number that classifies a run as a crash where the platform
/// reports termination signals (segmentation fault).
pub const CRASH_SIGNAL: i32 = 11;

/// The status code that classifies a run as a crash where the platform
/// reports only raw exit codes: the access violation status 0xC0000005,
/// as it appears in a signed 32-bit exit code.
pub const ACCESS_VIOLATION_CODE: i32 = -1073741819;

/// Which part of a termination status the platform exposes for crash
/// detection.
#[derive(Clone, Copy, PartialEq, Eq, Structural, Debug)]
pub enum Platform {
    /// Termination signals are visible; a crash is the crash signal.
    SignalInfo,
    /// Only the raw exit code is visible; a crash is the access violation
    /// status value.
    RawExitCode,
}

/// The terminal status of one subprocess run.
#[derive(Clone, Copy, PartialEq, Eq, Structural, Debug)]
pub struct ExecStatus {
    /// The exit code, where the process exited normally.
    pub exit_code: Option<i32>,
    /// The terminating signal, where the platform reports one.
    pub signal: Option<i32>,
}

/// Whether a termination status classifies as a crash on the given platform.
/// Every other termination is a normal run.
pub open spec fn is_crash(p: Platform, st: ExecStatus) -> bool {
    match p {
        Platform::SignalInfo => st.signal == Some(CRASH_SIGNAL),
        Platform::RawExitCode => match st.exit_code {
            Some(code) => code == ACCESS_VIOLATION_CODE,
            None => false,
        },
    }
}

/// Classify one termination status: crash or normal run.
pub fn classify(p: Platform, st: &ExecStatus) -> (r: bool)
    ensures
        r == is_crash(p, *st),
{
    match p {
        Platform::SignalInfo => {
            match st.signal {
                Some(sig) => sig == CRASH_SIGNAL,
                None => false,
            }
        },
        Platform::RawExitCode => {
            match st.exit_code {
                Some(code) => code == ACCESS_VIOLATION_CODE,
                None => false,
            }
        },
    }
}

} // verus!
