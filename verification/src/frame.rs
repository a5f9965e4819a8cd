//! One element of the per-frame resource ring.

use vstd::prelude::*;
use crate::upload::UploadBuffer;

verus! {

/// The CPU-owned resources reused every `F`-th iteration: a descriptor
/// binding set and the vertex and uniform upload buffers. The slot starts
/// empty and is populated once at startup; it is never destroyed except at
/// shutdown. Device objects are carried as plain integer handles.
pub struct Frame {
    /// Handle of the slot's descriptor binding set.
    pub desc_set: Option<u64>,
    /// Uniform upload buffer.
    pub ubuffer: Option<UploadBuffer>,
    /// Vertex upload buffer.
    pub vbuffer: Option<UploadBuffer>,
}

impl Frame {
    /// Every resource of the slot is populated and well formed; the
    /// scheduler requires this of each ring slot it is given.
    pub open spec fn ready(&self) -> bool {
        &&& self.desc_set is Some
        &&& (self.ubuffer matches Some(b) && b.wf())
        &&& (self.vbuffer matches Some(b) && b.wf())
    }

    /// An empty slot, to be populated during startup.
    pub fn new() -> (f: Frame)
        ensures
            f.desc_set is None,
            f.ubuffer is None,
            f.vbuffer is None,
    {
        Frame { desc_set: None, ubuffer: None, vbuffer: None }
    }
}

} // verus!
