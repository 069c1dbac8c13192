//! The ways in which a request to the driver can fail.

use vstd::prelude::*;

verus! {

/// Why the driver refused to take an operation.
#[derive(Clone, Copy, Debug, PartialEq, Eq, Structural)]
pub enum SubmitError {
    /// The driver has been stopped.
    Stopped,
    /// The operation has been submitted before.
    NotCreated,
    /// The operation names a file descriptor that cannot exist.
    InvalidDescriptor,
    /// The submission queue is full. The driver never waits for room: the
    /// caller gets the operation back at once and may try again later.
    Busy,
    /// Every operation id has been handed out.
    Exhausted,
}

/// Why an operation has no successful result.
#[derive(Clone, Copy, Debug, PartialEq, Eq, Structural)]
pub enum IoError {
    /// The kernel reported an error; `errno` is its positive error number.
    Os { errno: u32 },
    /// The operation was abandoned before it completed.
    Cancelled,
    /// The operation has not completed yet.
    Incomplete,
    /// A datagram arrived without the address of its sender.
    MissingPeer,
    /// The operation is not of the kind whose result was asked for.
    WrongKind,
}

/// Why the driver could not be started or stopped.
#[derive(Clone, Copy, Debug, PartialEq, Eq, Structural)]
pub enum LifecycleError {
    /// The driver is running already.
    AlreadyRunning,
    /// The driver is not running.
    NotRunning,
    /// Operations are still queued, in flight or waiting to be collected.
    Outstanding,
}

} // verus!
