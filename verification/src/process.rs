//! What the interpreter knows of operating-system processes: their
//! identifiers, and how a wait on one of them ended.

use vstd::prelude::*;

verus! {

/// `nix::unistd::Pid`, the identifier of a process. The library stores such
/// a value and hands it back; it never looks inside.
#[verifier::external_type_specification]
#[verifier::external_body]
pub struct ExPid(nix::unistd::Pid);

/// How a wait on a child ended.
#[derive(Clone, Copy, Debug, PartialEq, Eq, Structural)]
pub enum WaitOutcome {
    /// The child ended by itself, with this exit code.
    Exited(i32),
    /// The child was killed by the signal of this number.
    Signaled(i32),
    /// Anything else: stopped, continued, still alive.
    Other,
}

/// Where a command runs.
#[derive(Clone, Copy, Debug, PartialEq, Eq, Structural)]
pub enum ExecMode {
    /// Inside the interpreter's own process: what the command changes stays
    /// changed.
    InProcess,
    /// In a child process of its own, with its descriptors wired first.
    Forked,
}

/// The exit status of a child that could not run its program.
pub const EXEC_FAILED: i32 = 127;

/// Whether the end of a child has to be reported on the error stream: every
/// end but a normal one with exit code 0.
pub open spec fn is_abnormal(outcome: WaitOutcome) -> bool {
    outcome != WaitOutcome::Exited(0)
}

pub fn needs_report(outcome: WaitOutcome) -> (b: bool)
    ensures
        b == is_abnormal(outcome),
{
    match outcome {
        WaitOutcome::Exited(code) => code != 0,
        _ => true,
    }
}

} // verus!
