//! Lifecycle of a process run as the init process of a container: before
//! exit it reaps every child that has terminated, its own and orphans alike.
use crate::host::CleanupError;
use vstd::prelude::*;

verus! {

/// What one wait for any child process reported.
pub enum WaitOutcome {
    /// A child terminated and its status was collected.
    Reaped,
    /// No child process remains.
    NoChildren,
    /// The wait failed with this OS error number.
    Failed(i32),
}

/// What the reaping loop does after a wait.
pub enum Reaping {
    /// Wait for the next child.
    Continue,
    /// Stop: cleanup ended with this result.
    Stop(Result<(), CleanupError>),
}

/// One turn of the reaping loop: go on while children are collected, stop
/// with success once none remain, stop with the error on any other failure.
pub fn reap_step(outcome: &WaitOutcome) -> (r: Reaping)
    ensures
        match outcome {
            WaitOutcome::Reaped => r is Continue,
            WaitOutcome::NoChildren => r matches Reaping::Stop(res) && res is Ok,
            WaitOutcome::Failed(e) => r matches Reaping::Stop(res) && res matches Err(
                CleanupError::Wait(c),
            ) && c == *e,
        },
{
    match outcome {
        WaitOutcome::Reaped => Reaping::Continue,
        WaitOutcome::NoChildren => Reaping::Stop(Ok(())),
        WaitOutcome::Failed(e) => Reaping::Stop(Err(CleanupError::Wait(*e))),
    }
}

} // verus!
