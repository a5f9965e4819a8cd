//! Error taxonomy for the render loop.

use vstd::prelude::*;

verus! {

/// Failures surfaced by the ring protocol and by the device driving it.
///
/// Buffer setup failures (`BufferCreationError`, `RequirementQueryError`,
/// `NoSuitableMemoryType`, `AllocationError`, `BindError`) are fatal and
/// abort startup; each is a distinct variant, never a generic message. A
/// stale chain is not an error: the scheduler recovers from it by
/// rebuilding, and only reports `ChainLost`. `ChainLost`
/// is the escalation of a second consecutive out-of-date report right after
/// a chain rebuild. `FenceTimeout` marks a fence wait that did not complete,
/// treated as fatal by default.
#[derive(Clone, Copy, Debug, PartialEq, Eq, Structural)]
pub enum BackendError {
    /// The device refused to create the buffer object.
    BufferCreationError,
    /// Querying the created buffer's memory requirements failed.
    RequirementQueryError,
    /// No reported memory type is both permitted by the buffer's
    /// requirement mask and visible to the CPU.
    NoSuitableMemoryType,
    /// The device could not allocate backing storage.
    AllocationError,
    /// Binding the backing storage to the buffer failed.
    BindError,
    /// The present chain was reported out of date again immediately after a
    /// rebuild.
    ChainLost,
    /// A fence wait did not observe the signal in time.
    FenceTimeout,
}

} // verus!
