//! Lifecycle of a process run as an ordinary foreground service.
use vstd::prelude::*;

verus! {

/// Why releasing the process's resources before exit failed.
pub enum CleanupError {
    /// Waiting for a child process failed with this OS error number.
    Wait(i32),
}

/// Cleanup before exit: a process on a host reaps no one's children, so
/// there is nothing to do and it always succeeds.
pub fn cleanup() -> (r: Result<(), CleanupError>)
    ensures
        r is Ok,
{
    Ok(())
}

} // verus!
