//! Device object handles.
//!
//! Every device object the protocol tracks (image, view, framebuffer,
//! semaphore, fence) is represented by a `u64` issued from a monotone
//! counter, so a handle is never reused: anything issued after a boundary
//! is distinct from everything issued before it. The driver keeps the map
//! from these handles to the real device objects.

use vstd::prelude::*;

verus! {

/// `count` consecutive handles starting at `start`; consecutive issue is
/// what makes every pool of handles pairwise distinct.
pub fn handle_run(start: u64, count: usize) -> (v: Vec<u64>)
    requires
        start + count <= u64::MAX,
    ensures
        v@.len() == count,
        forall|i: int| 0 <= i < count ==> v@[i] == start + i,
{
    let mut v: Vec<u64> = Vec::new();
    let mut i: usize = 0;
    while i < count
        invariant
            start + count <= u64::MAX,
            i <= count,
            v@.len() == i,
            forall|j: int| 0 <= j < i ==> v@[j] == start + j,
        decreases count - i,
    {
        v.push(start + (i as u64));
        i = i + 1;
    }
    v
}

/// Every handle in a consecutive run is distinct from every other, and
/// from any handle outside the run's range.
pub proof fn lemma_handle_run_distinct(v: Seq<u64>, start: int, count: int)
    requires
        forall|i: int| 0 <= i < count ==> v[i] == start + i,
        v.len() == count,
    ensures
        forall|i: int, j: int| 0 <= i < j < count ==> v[i] != v[j],
{
}

} // verus!
