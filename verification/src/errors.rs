//! The shared error taxonomy of the runtime.
//!
//! Every blocking-style operation reports its failure through `ErrorKind`.
//! `WouldBlock` is internal to the readiness backend's retry loop and must
//! never escape a completion step; every other kind is returned to the
//! coroutine exactly as a synchronous call would return it.

use vstd::prelude::*;

verus! {

/// The error taxonomy shared by every asynchronous operation of the core.
#[derive(Clone, Copy, Debug, PartialEq, Eq, Structural)]
pub enum ErrorKind {
    /// The timer fired before readiness or completion.
    TimedOut,
    /// An explicit cancellation won the race against natural completion.
    Cancelled,
    /// The retried call is not ready yet; internal only, triggers a retry.
    WouldBlock,
    /// The operating-system call itself failed with the given code.
    OsError(i32),
    /// The operation was attempted after scheduler teardown.
    ShutdownError,
    /// A stack or descriptor allocation failed.
    AllocationError,
}

/// An error kind may be surfaced to the coroutine as the result of its
/// blocking-style call exactly when it is not `WouldBlock`: `WouldBlock`
/// is fully absorbed inside the readiness backend's retry loop.
pub open spec fn surfaceable(e: ErrorKind) -> bool {
    e != ErrorKind::WouldBlock
}

} // verus!
