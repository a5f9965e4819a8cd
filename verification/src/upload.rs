//! CPU-writable, GPU-readable upload buffers.
//!
//! The buffer owns its backing storage for its whole lifetime and is never
//! resized. Its contents are modelled as the bytes the CPU has written;
//! the driver that owns the real device maps the same byte range and copies
//! these bytes through it. Writing a range is safe only while no in-flight
//! GPU read of that range is pending; the scheduler enforces that by fence
//! gating, not the buffer itself.

use vstd::prelude::*;
use crate::backenderror::BackendError;

verus! {

/// One memory type reported by the device: whether the CPU can map it.
#[derive(Clone, Copy, Debug, PartialEq, Eq, Structural)]
pub struct MemoryType {
    /// The CPU may map and write storage allocated from this type.
    pub cpu_visible: bool,
}

/// Memory type `id` may back the buffer: the buffer's requirement mask has
/// bit `id` set, and the type is visible to the CPU.
pub open spec fn suitable_memory_type(type_mask: u64, memory_types: Seq<MemoryType>, id: int) -> bool {
    &&& 0 <= id < memory_types.len()
    &&& type_mask & (1u64 << id as u64) != 0
    &&& memory_types[id].cpu_visible
}

/// The first memory type that the requirement mask permits and that the CPU
/// can see, or `None` when no reported type qualifies.
pub fn select_memory_type(type_mask: u64, memory_types: &Vec<MemoryType>) -> (r: Option<usize>)
    requires
        memory_types@.len() <= 64,
    ensures
        match r {
            Some(id) => {
                &&& suitable_memory_type(type_mask, memory_types@, id as int)
                &&& forall|j: int| 0 <= j < id ==> !suitable_memory_type(type_mask, memory_types@, j)
            },
            None => forall|j: int| 0 <= j < memory_types@.len()
                ==> !suitable_memory_type(type_mask, memory_types@, j),
        },
{
    let n = memory_types.len();
    let mut id: usize = 0;
    while id < n
        invariant
            n == memory_types@.len() <= 64,
            id <= n,
            forall|j: int| 0 <= j < id ==> !suitable_memory_type(type_mask, memory_types@, j),
        decreases n - id,
    {
        if type_mask & (1u64 << (id as u64)) != 0 && memory_types[id].cpu_visible {
            return Some(id);
        }
        id = id + 1;
    }
    None
}

/// `base` with `payload` written over the range starting at `offset`.
pub open spec fn spliced(base: Seq<u8>, offset: int, payload: Seq<u8>) -> Seq<u8> {
    base.take(offset) + payload + base.skip(offset + payload.len())
}

/// A host-visible upload buffer: a fixed capacity in bytes and the bytes
/// currently written to it.
pub struct UploadBuffer {
    /// Capacity in bytes, fixed at creation.
    pub size: u64,
    /// The bytes the CPU has written; always exactly `size` long.
    pub data: Vec<u8>,
}

impl UploadBuffer {
    /// The backing storage matches the declared capacity.
    pub open spec fn wf(&self) -> bool {
        self.data@.len() == self.size
    }

    /// Creates a buffer of `size` bytes, zero-filled, choosing the first
    /// memory type that the requirement mask permits and the CPU can see.
    /// Fails with `NoSuitableMemoryType`, and only with it, when no
    /// reported memory type qualifies.
    pub fn new(size: u64, type_mask: u64, memory_types: &Vec<MemoryType>) -> (r: Result<UploadBuffer, BackendError>)
        requires
            size <= usize::MAX,
            memory_types@.len() <= 64,
        ensures
            r is Ok <==> exists|j: int| suitable_memory_type(type_mask, memory_types@, j),
            r matches Ok(b) ==> b.wf() && b.size == size
                && b.data@ == Seq::<u8>::new(size as nat, |i: int| 0u8),
            r matches Err(e) ==> e == BackendError::NoSuitableMemoryType,
    {
        match select_memory_type(type_mask, memory_types) {
            Some(_) => {
                let data = zeroed(size as usize);
                Ok(UploadBuffer { size, data })
            },
            None => Err(BackendError::NoSuitableMemoryType),
        }
    }

    /// Writes `payload` at byte offset `offset`, leaving every byte outside
    /// the written range unchanged. This is the scoped mapped write: the
    /// caller must have ensured (by fence gating) that no in-flight GPU
    /// read of the range is pending.
    pub fn write(&mut self, offset: usize, payload: &Vec<u8>)
        requires
            old(self).wf(),
            offset + payload@.len() <= old(self).size,
        ensures
            final(self).wf(),
            final(self).size == old(self).size,
            final(self).data@ == spliced(old(self).data@, offset as int, payload@),
    {
        let n = payload.len();
        let cap = self.data.len();
        let mut i: usize = 0;
        while i < n
            invariant
                old(self).wf(),
                n == payload@.len(),
                cap == self.data@.len(),
                offset + n <= cap,
                offset + n <= old(self).size,
                i <= n,
                self.size == old(self).size,
                self.data@.len() == old(self).data@.len(),
                forall|j: int| 0 <= j < offset + i && !(offset <= j)
                    ==> self.data@[j] == old(self).data@[j],
                forall|j: int| offset <= j < offset + i ==> self.data@[j] == payload@[j - offset],
                forall|j: int| offset + n <= j < self.data@.len()
                    ==> self.data@[j] == old(self).data@[j],
                forall|j: int| offset + i <= j < offset + n
                    ==> self.data@[j] == old(self).data@[j],
            decreases n - i,
        {
            let b = payload[i];
            self.data.set(offset + i, b);
            i = i + 1;
        }
        proof {
            assert(final(self).data@ =~= spliced(old(self).data@, offset as int, payload@));
        }
    }

    /// Reads `len` bytes starting at `offset`: exactly the bytes most
    /// recently written there.
    pub fn read(&self, offset: usize, len: usize) -> (r: Vec<u8>)
        requires
            self.wf(),
            offset + len <= self.size,
        ensures
            r@ == self.data@.subrange(offset as int, offset as int + len as int),
    {
        let mut r: Vec<u8> = Vec::new();
        let cap = self.data.len();
        let mut i: usize = 0;
        while i < len
            invariant
                self.wf(),
                cap == self.data@.len(),
                offset + len <= cap,
                offset + len <= self.size,
                i <= len,
                r@.len() == i,
                forall|j: int| 0 <= j < i ==> r@[j] == self.data@[offset + j],
            decreases len - i,
        {
            let b = self.data[offset + i];
            r.push(b);
            i = i + 1;
        }
        proof {
            assert(r@ =~= self.data@.subrange(offset as int, offset as int + len as int));
        }
        r
    }
}

/// A zero-filled byte vector of the given length.
fn zeroed(len: usize) -> (v: Vec<u8>)
    ensures
        v@ == Seq::<u8>::new(len as nat, |i: int| 0u8),
{
    let mut v: Vec<u8> = Vec::new();
    let mut i: usize = 0;
    while i < len
        invariant
            i <= len,
            v@.len() == i,
            forall|j: int| 0 <= j < i ==> v@[j] == 0u8,
        decreases len - i,
    {
        v.push(0u8);
        i = i + 1;
    }
    proof {
        assert(v@ =~= Seq::<u8>::new(len as nat, |i: int| 0u8));
    }
    v
}

/// Round trip: writing a payload into a buffer's bytes and reading the same
/// range back yields the payload unchanged, whatever the buffer held
/// before.
pub proof fn lemma_write_read_round_trip(base: Seq<u8>, offset: int, payload: Seq<u8>)
    requires
        0 <= offset,
        offset + payload.len() <= base.len(),
    ensures
        spliced(base, offset, payload).subrange(offset, offset + payload.len() as int) == payload,
{
    assert(spliced(base, offset, payload).subrange(offset, offset + payload.len() as int) =~= payload);
}

} // verus!
