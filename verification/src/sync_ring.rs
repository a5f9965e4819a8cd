//! Synchronization object pools coordinating CPU submission with GPU
//! completion and surface-image acquisition.
//!
//! Two independent pools. The acquire pool has one semaphore per present
//! image plus one spare: acquisition is always requested with the spare,
//! and once the image index is known the spare is swapped with the
//! semaphore associated to that index. The frame pool has one (semaphore,
//! fence) pair per ring slot, signalled when that slot's submission has
//! finished executing on the device.

use vstd::prelude::*;
use crate::handles::{handle_run, lemma_handle_run_distinct};

verus! {

/// The semaphores and fences of the ring.
pub struct SyncRing {
    /// The spare acquire semaphore: guaranteed unused by any in-flight
    /// acquisition, so it can be handed to the next acquire call.
    pub free_acquire: u64,
    /// One acquire semaphore per present image, lazily associated with the
    /// image of that index by the swap after each acquisition.
    pub image_acquire: Vec<u64>,
    /// One submission-complete semaphore per ring slot.
    pub submission_complete: Vec<u64>,
    /// One submission-complete fence per ring slot; the CPU waits on it
    /// before reusing the slot.
    pub fences: Vec<u64>,
}

impl SyncRing {
    /// Exactly one acquire semaphore is unassigned at any instant: the
    /// spare differs from every per-image semaphore, and no two images
    /// share one.
    pub open spec fn acquire_pool_distinct(&self) -> bool {
        &&& forall|i: int| 0 <= i < self.image_acquire@.len()
            ==> self.image_acquire@[i] != self.free_acquire
        &&& forall|i: int, j: int| 0 <= i < j < self.image_acquire@.len()
            ==> self.image_acquire@[i] != self.image_acquire@[j]
    }

    /// No two ring slots share a submission semaphore or a fence.
    pub open spec fn frame_pool_distinct(&self) -> bool {
        &&& forall|i: int, j: int| 0 <= i < j < self.submission_complete@.len()
            ==> self.submission_complete@[i] != self.submission_complete@[j]
        &&& forall|i: int, j: int| 0 <= i < j < self.fences@.len()
            ==> self.fences@[i] != self.fences@[j]
    }

    /// Pool sizes: the acquire pool follows the present-image count, the
    /// frame pool follows the frames-in-flight count, and both pools'
    /// contents are distinct as the protocol requires.
    pub open spec fn wf(&self, frames_in_flight: int, image_count: int) -> bool {
        &&& self.image_acquire@.len() == image_count
        &&& self.submission_complete@.len() == frames_in_flight
        &&& self.fences@.len() == frames_in_flight
        &&& self.acquire_pool_distinct()
        &&& self.frame_pool_distinct()
    }

    /// Every acquire-pool handle was issued before `h`.
    pub open spec fn acquire_below(&self, h: int) -> bool {
        &&& self.free_acquire < h
        &&& forall|i: int| 0 <= i < self.image_acquire@.len() ==> self.image_acquire@[i] < h
    }

    /// Every acquire-pool handle was issued at `h` or later.
    pub open spec fn acquire_at_least(&self, h: int) -> bool {
        &&& self.free_acquire >= h
        &&& forall|i: int| 0 <= i < self.image_acquire@.len() ==> self.image_acquire@[i] >= h
    }

    /// Every frame-pool handle was issued before `h`.
    pub open spec fn frame_pool_below(&self, h: int) -> bool {
        &&& forall|i: int| 0 <= i < self.submission_complete@.len()
            ==> self.submission_complete@[i] < h
        &&& forall|i: int| 0 <= i < self.fences@.len() ==> self.fences@[i] < h
    }

    /// Every handle of the ring was issued before `h`.
    pub open spec fn handles_below(&self, h: int) -> bool {
        self.acquire_below(h) && self.frame_pool_below(h)
    }

    /// Creates both pools from consecutive handles starting at
    /// `first_handle`: `image_count + 1` acquire semaphores and
    /// `frames_in_flight` (semaphore, fence) pairs. Returns the ring and
    /// the next unissued handle.
    pub fn new(frames_in_flight: usize, image_count: usize, first_handle: u64) -> (r: (SyncRing, u64))
        requires
            first_handle + image_count + 1 + 2 * frames_in_flight <= u64::MAX,
        ensures
            r.0.wf(frames_in_flight as int, image_count as int),
            r.0.handles_below(r.1 as int),
            r.0.acquire_at_least(first_handle as int),
            r.1 == first_handle + image_count + 1 + 2 * frames_in_flight,
    {
        let image_acquire = handle_run(first_handle, image_count);
        let free_acquire = first_handle + (image_count as u64);
        let after_acquire = free_acquire + 1;
        let submission_complete = handle_run(after_acquire, frames_in_flight);
        let fence_start = after_acquire + (frames_in_flight as u64);
        let fences = handle_run(fence_start, frames_in_flight);
        let next = fence_start + (frames_in_flight as u64);
        proof {
            lemma_handle_run_distinct(image_acquire@, first_handle as int, image_count as int);
            lemma_handle_run_distinct(submission_complete@, after_acquire as int, frames_in_flight as int);
            lemma_handle_run_distinct(fences@, fence_start as int, frames_in_flight as int);
        }
        (SyncRing { free_acquire, image_acquire, submission_complete, fences }, next)
    }

    /// Replaces the acquire pool for a rebuilt chain with `image_count + 1`
    /// fresh semaphores from consecutive handles starting at
    /// `first_handle`; acquire semaphores cannot be reused across a
    /// rebuild. The frame pool is untouched. Returns the next unissued
    /// handle.
    pub fn resize_acquire(&mut self, image_count: usize, first_handle: u64) -> (next: u64)
        requires
            first_handle + image_count + 1 <= u64::MAX,
        ensures
            final(self).image_acquire@.len() == image_count,
            final(self).acquire_pool_distinct(),
            final(self).acquire_below(next as int),
            final(self).acquire_at_least(first_handle as int),
            final(self).submission_complete@ == old(self).submission_complete@,
            final(self).fences@ == old(self).fences@,
            next == first_handle + image_count + 1,
    {
        let image_acquire = handle_run(first_handle, image_count);
        proof {
            lemma_handle_run_distinct(image_acquire@, first_handle as int, image_count as int);
        }
        self.image_acquire = image_acquire;
        self.free_acquire = first_handle + (image_count as u64);
        first_handle + (image_count as u64) + 1
    }

    /// The swap at the heart of the rotation: acquisition has just
    /// returned `image_index` after being given the spare semaphore, so
    /// the spare becomes the semaphore of that image and the one
    /// previously associated with the image — idle again, because the
    /// image's prior use completed before it could be re-acquired —
    /// becomes the new spare. The rotation preserves the exactly-one-spare
    /// invariant, and the spare's identity always changes.
    pub fn rotate_acquire(&mut self, image_index: usize)
        requires
            image_index < old(self).image_acquire@.len(),
        ensures
            final(self).free_acquire == old(self).image_acquire@[image_index as int],
            final(self).image_acquire@ == old(self).image_acquire@.update(
                image_index as int,
                old(self).free_acquire,
            ),
            final(self).submission_complete@ == old(self).submission_complete@,
            final(self).fences@ == old(self).fences@,
            old(self).acquire_pool_distinct() ==> final(self).acquire_pool_distinct(),
            old(self).acquire_pool_distinct() ==> final(self).free_acquire != old(self).free_acquire,
            forall|h: int| old(self).acquire_below(h) ==> final(self).acquire_below(h),
    {
        let previous = self.image_acquire[image_index];
        let spare = self.free_acquire;
        self.image_acquire.set(image_index, spare);
        self.free_acquire = previous;
    }
}

/// Acquire semaphores cannot be reused across a chain rebuild: every
/// semaphore of the pre-rebuild pool lies below the issue boundary and
/// every semaphore of the post-rebuild pool at or above it, so no handle
/// of the old pool — spare included — appears anywhere in the new one.
pub proof fn lemma_acquire_pool_replaced(pre: &SyncRing, post: &SyncRing, boundary: int)
    requires
        pre.acquire_below(boundary),
        post.acquire_at_least(boundary),
    ensures
        post.free_acquire != pre.free_acquire,
        forall|i: int| 0 <= i < post.image_acquire@.len()
            ==> #[trigger] post.image_acquire@[i] != pre.free_acquire,
        forall|i: int| 0 <= i < pre.image_acquire@.len()
            ==> #[trigger] pre.image_acquire@[i] != post.free_acquire,
        forall|i: int, j: int|
            0 <= i < post.image_acquire@.len() && 0 <= j < pre.image_acquire@.len()
                ==> post.image_acquire@[i] != pre.image_acquire@[j],
{
}

/// The acquire-pool invariant in full: at any instant exactly one
/// semaphore of the pool is unassigned (the spare), and every assigned one
/// belongs to exactly one present-image index, no two images sharing a
/// semaphore.
pub proof fn lemma_acquire_pool_partition(r: &SyncRing)
    requires
        r.acquire_pool_distinct(),
    ensures
        forall|i: int| 0 <= i < r.image_acquire@.len() ==> r.image_acquire@[i] != r.free_acquire,
        forall|i: int, j: int| 0 <= i < j < r.image_acquire@.len()
            ==> r.image_acquire@[i] != r.image_acquire@[j],
{
}

} // verus!
