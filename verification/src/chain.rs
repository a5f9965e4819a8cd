//! The presentable-surface chain: images, their views, and the render
//! targets derived from them.
//!
//! The chain is an atomic unit: the three sequences are always destroyed
//! and recreated together, never partially, and their count is set by the
//! presentation backend independently of the frames-in-flight count.

use vstd::prelude::*;
use crate::handles::{handle_run, lemma_handle_run_distinct};

verus! {

/// The present images, one view per image, one render target per view,
/// and the extent they were created against.
pub struct PresentChain {
    /// Handles of the backend-managed present images.
    pub images: Vec<u64>,
    /// Handles of the image views, one per image.
    pub views: Vec<u64>,
    /// Handles of the render targets, one per view.
    pub targets: Vec<u64>,
    /// Width the chain was created against.
    pub width: u32,
    /// Height the chain was created against.
    pub height: u32,
}

impl PresentChain {
    /// The chain's defining invariant: views and targets are one-to-one
    /// with the images, and there is at least one image.
    pub open spec fn wf(&self) -> bool {
        &&& self.images@.len() == self.views@.len()
        &&& self.views@.len() == self.targets@.len()
        &&& self.images@.len() >= 1
    }

    /// Every handle of the chain was issued before `h`.
    pub open spec fn handles_below(&self, h: int) -> bool {
        &&& forall|i: int| 0 <= i < self.images@.len() ==> self.images@[i] < h
        &&& forall|i: int| 0 <= i < self.views@.len() ==> self.views@[i] < h
        &&& forall|i: int| 0 <= i < self.targets@.len() ==> self.targets@[i] < h
    }

    /// Every handle of the chain was issued at `h` or later.
    pub open spec fn handles_at_least(&self, h: int) -> bool {
        &&& forall|i: int| 0 <= i < self.images@.len() ==> self.images@[i] >= h
        &&& forall|i: int| 0 <= i < self.views@.len() ==> self.views@[i] >= h
        &&& forall|i: int| 0 <= i < self.targets@.len() ==> self.targets@[i] >= h
    }

    /// `x` is one of the chain's image, view or target handles.
    pub open spec fn contains_handle(&self, x: u64) -> bool {
        ||| self.images@.contains(x)
        ||| self.views@.contains(x)
        ||| self.targets@.contains(x)
    }

    /// Creates a chain of `image_count` images with their views and
    /// targets, all from consecutive handles starting at `first_handle`,
    /// against the given extent. Returns the chain and the next unissued
    /// handle.
    pub fn create(image_count: usize, width: u32, height: u32, first_handle: u64) -> (r: (PresentChain, u64))
        requires
            1 <= image_count,
            first_handle + 3 * image_count <= u64::MAX,
        ensures
            r.0.wf(),
            r.0.images@.len() == image_count,
            r.0.width == width,
            r.0.height == height,
            r.0.handles_below(r.1 as int),
            r.0.handles_at_least(first_handle as int),
            r.1 == first_handle + 3 * image_count,
    {
        let images = handle_run(first_handle, image_count);
        let view_start = first_handle + (image_count as u64);
        let views = handle_run(view_start, image_count);
        let target_start = view_start + (image_count as u64);
        let targets = handle_run(target_start, image_count);
        proof {
            lemma_handle_run_distinct(images@, first_handle as int, image_count as int);
            lemma_handle_run_distinct(views@, view_start as int, image_count as int);
            lemma_handle_run_distinct(targets@, target_start as int, image_count as int);
        }
        (PresentChain { images, views, targets, width, height }, target_start + (image_count as u64))
    }
}

/// After a rebuild no pre-rebuild handle can ever be referenced again:
/// every handle of the old chain lies below the issue boundary, every
/// handle of the new chain lies at or above it, so the two sets of handles
/// are disjoint.
pub proof fn lemma_rebuild_handles_fresh(pre: &PresentChain, post: &PresentChain, boundary: int)
    requires
        pre.handles_below(boundary),
        post.handles_at_least(boundary),
    ensures
        forall|x: u64| pre.contains_handle(x) ==> !post.contains_handle(x),
{
    assert forall|x: u64| pre.contains_handle(x) implies !post.contains_handle(x) by {
        if pre.images@.contains(x) {
            let i = choose|i: int| 0 <= i < pre.images@.len() && pre.images@[i] == x;
            assert(x < boundary);
        } else if pre.views@.contains(x) {
            let i = choose|i: int| 0 <= i < pre.views@.len() && pre.views@[i] == x;
            assert(x < boundary);
        } else {
            let i = choose|i: int| 0 <= i < pre.targets@.len() && pre.targets@[i] == x;
            assert(x < boundary);
        }
        if post.images@.contains(x) {
            let i = choose|i: int| 0 <= i < post.images@.len() && post.images@[i] == x;
        }
        if post.views@.contains(x) {
            let i = choose|i: int| 0 <= i < post.views@.len() && post.views@[i] == x;
        }
        if post.targets@.contains(x) {
            let i = choose|i: int| 0 <= i < post.targets@.len() && post.targets@[i] == x;
        }
    }
}

} // verus!
