//! The frame scheduler: one explicit object owning all ring state, with a
//! method per phase of an iteration.
//!
//! The driver that owns the real device runs the loop: it asks the
//! scheduler what to do next (`begin_frame`), performs the device call the
//! answer names (rebuild the chain, or acquire an image with the named
//! semaphore), and reports the outcome back (`finish_rebuild`,
//! `finish_acquire`, `on_fence_signaled`, `on_present`). Every decision —
//! which slot, which semaphore, which fence, when a rebuild is due — is
//! taken here; the driver only executes.
//!
//! A ghost log of submissions, fence observations, context resets and
//! buffer writes records the order of the protocol's irreversible steps;
//! the scheduler's invariant states over it that a slot's command context
//! is never reset, and its upload buffers never rewritten, before the
//! fence of that slot's previous submission, `F` iterations earlier, has
//! been observed signalled.

use vstd::prelude::*;
use crate::backenderror::BackendError;
use crate::chain::PresentChain;
use crate::frame::Frame;
use crate::ring::{last_submitted, lemma_no_prior_submission, lemma_prior_submission, slot_for};
use crate::sync_ring::SyncRing;
use crate::upload::spliced;

verus! {

/// Whether the present chain still matches the surface.
#[derive(Clone, Copy, Debug, PartialEq, Eq, Structural)]
pub enum ChainState {
    /// The chain can be presented to.
    Valid,
    /// A resize or an out-of-date report invalidated the chain; it must be
    /// rebuilt before the next acquisition.
    Stale,
}

/// Where in an iteration the scheduler stands; each method requires its
/// phase, so the protocol's order of steps is enforced by contract.
#[derive(Clone, Copy, Debug, PartialEq, Eq, Structural)]
pub enum Phase {
    /// Top of an iteration: a latched resize is applied next.
    Top,
    /// The driver is rebuilding the chain on the device.
    RebuildWait,
    /// The driver is acquiring the next image with the spare semaphore.
    AcquireWait,
    /// The driver is waiting on the active slot's fence.
    SlotWait,
    /// The active slot's prior work is done: its buffers may be written
    /// and its context recorded.
    Record,
    /// The driver is submitting and presenting the recorded work.
    SubmitWait,
    /// A fatal error was reported; only teardown remains.
    Failed,
}

/// What the driver must do at the top of an iteration.
#[derive(Clone, Copy, Debug, PartialEq, Eq, Structural)]
pub enum BeginAction {
    /// Wait for the device to go idle, destroy the dependent views and
    /// targets, and recreate the chain against this extent.
    Rebuild {
        /// Width to rebuild against.
        width: u32,
        /// Height to rebuild against.
        height: u32,
    },
    /// Acquire the next present image, passing this (spare) semaphore to
    /// be signalled when the image is ready.
    Acquire {
        /// The spare acquire semaphore, unused by any in-flight
        /// acquisition.
        semaphore: u64,
    },
}

/// What the device reported for an acquisition.
#[derive(Clone, Copy, Debug, PartialEq, Eq, Structural)]
pub enum AcquireOutcome {
    /// The image with this index will be ready once the given semaphore
    /// signals.
    Image {
        /// Present-image index; unrelated to the ring-slot index.
        index: usize,
    },
    /// The chain no longer matches the surface.
    OutOfDate,
}

/// What the device reported for a presentation.
#[derive(Clone, Copy, Debug, PartialEq, Eq, Structural)]
pub enum PresentOutcome {
    /// The image was queued for presentation.
    Presented,
    /// The chain no longer matches the surface.
    OutOfDate,
}

/// The synchronization objects of one submission, as the driver must pass
/// them to the device: wait on the acquired image's semaphore (gated at
/// the color-output stage), signal the slot's semaphore and fence, and
/// present waiting on that same slot semaphore.
#[derive(Clone, Copy, Debug, PartialEq, Eq, Structural)]
pub struct SubmitInfo {
    /// Semaphore the submission waits on: the acquire semaphore now
    /// associated with the acquired image.
    pub wait_semaphore: u64,
    /// Slot semaphore the submission signals; presentation waits on it.
    pub signal_semaphore: u64,
    /// Slot fence the submission signals; the CPU waits on it before
    /// reusing the slot, `F` iterations later.
    pub signal_fence: u64,
    /// Present-image index the submission renders to.
    pub image_index: usize,
}

/// One irreversible step of the protocol, as recorded in the ghost log.
pub enum RingEvent {
    /// Iteration `iteration` submitted through slot `slot`.
    Submitted {
        /// Ring slot of the submission.
        slot: int,
        /// Iteration that submitted.
        iteration: int,
    },
    /// The fence of slot `slot`'s submission from iteration `iteration`
    /// was observed signalled.
    FenceObserved {
        /// Ring slot whose fence signalled.
        slot: int,
        /// Iteration whose submission the fence guarded.
        iteration: int,
    },
    /// Iteration `iteration` discarded slot `slot`'s previously recorded
    /// commands.
    ContextReset {
        /// Ring slot that was reset.
        slot: int,
        /// Iteration that reset it.
        iteration: int,
    },
    /// Iteration `iteration` wrote into one of slot `slot`'s upload
    /// buffers.
    BufferWritten {
        /// Ring slot whose buffer was written.
        slot: int,
        /// Iteration that wrote.
        iteration: int,
    },
}

/// Entry `j` of the log respects fence gating: if it resets a slot's
/// context or writes a slot's buffer at iteration `k >= f`, an earlier
/// entry observed the fence of that slot's submission from iteration
/// `k - f`.
pub open spec fn reuse_gated_at(log: Seq<RingEvent>, f: int, j: int) -> bool {
    match log[j] {
        RingEvent::ContextReset { slot, iteration } => iteration >= f ==> exists|i: int|
            0 <= i < j && log[i] == (RingEvent::FenceObserved { slot, iteration: iteration - f }),
        RingEvent::BufferWritten { slot, iteration } => iteration >= f ==> exists|i: int|
            0 <= i < j && log[i] == (RingEvent::FenceObserved { slot, iteration: iteration - f }),
        _ => true,
    }
}

/// No slot is ever reused — its context reset or its buffers rewritten —
/// until the fence signalled by the same slot's submission `f` iterations
/// earlier has been observed.
pub open spec fn reuse_gated(log: Seq<RingEvent>, f: int) -> bool {
    forall|j: int| 0 <= j < log.len() ==> #[trigger] reuse_gated_at(log, f, j)
}

/// The log holds an observation of the fence guarding slot `slot`'s
/// submission from iteration `k - f`; vacuously true for the first `f`
/// iterations, which have no prior submission to wait for.
pub open spec fn fence_witnessed(log: Seq<RingEvent>, f: int, slot: int, k: int) -> bool {
    k >= f ==> exists|i: int| 0 <= i < log.len() && log[i] == (RingEvent::FenceObserved {
        slot,
        iteration: k - f,
    })
}

/// The bookkeeping entry tracks the model value: the slot's outstanding
/// submission is exactly the iteration the model names, or neither has
/// one.
pub open spec fn tracks(v: Option<u64>, m: Option<int>) -> bool {
    match v {
        Some(a) => m == Some(a as int),
        None => m is None,
    }
}

/// The frame scheduler. All mutable ring state is owned here and driven by
/// one thread; the only concurrency is CPU/GPU overlap, which the fences
/// of the frame pool gate.
pub struct FrameScheduler {
    /// Number of ring slots, fixed for the scheduler's lifetime.
    pub frames_in_flight: usize,
    /// Iterations completed; the active slot is this counter modulo the
    /// slot count.
    pub frame_counter: u64,
    /// The resource ring, one populated slot per frame in flight.
    pub slots: Vec<Frame>,
    /// Command context handles, one per slot; reset only behind the slot's
    /// fence.
    pub command_pools: Vec<u64>,
    /// Semaphore and fence pools.
    pub sync: SyncRing,
    /// The presentable-surface chain.
    pub chain: PresentChain,
    /// Whether the chain still matches the surface.
    pub chain_state: ChainState,
    /// Set by a completed rebuild, cleared by the first successful
    /// acquisition after it; an out-of-date report while set escalates to
    /// a fatal `ChainLost`.
    pub just_rebuilt: bool,
    /// A resize reported mid-iteration, latched here and applied at the
    /// top of the next iteration.
    pub pending_resize: Option<(u32, u32)>,
    /// Extent the next rebuild will use.
    pub want_width: u32,
    /// Extent the next rebuild will use.
    pub want_height: u32,
    /// Viewport width for recorded frames; follows the chain's extent.
    pub viewport_width: u32,
    /// Viewport height for recorded frames; follows the chain's extent.
    pub viewport_height: u32,
    /// Present-image index of the current iteration, valid from
    /// acquisition to presentation.
    pub current_image: usize,
    /// Per slot, the iteration of the submission still executing on the
    /// device, if any.
    pub in_flight: Vec<Option<u64>>,
    /// Next unissued device handle.
    pub next_handle: u64,
    /// Where in the iteration the scheduler stands.
    pub phase: Phase,
    /// The order of submissions, fence observations and context resets.
    pub log: Ghost<Seq<RingEvent>>,
}

impl FrameScheduler {
    /// The ring slot the current iteration uses.
    pub open spec fn active_slot(&self) -> int {
        self.frame_counter as int % self.frames_in_flight as int
    }

    /// Every slot's bookkeeping matches the model of a counter standing at
    /// `k`: the outstanding submission of slot `s` is the last iteration
    /// below `k` that used `s`.
    pub open spec fn in_flight_consistent_at(&self, k: int) -> bool {
        forall|s: int| 0 <= s < self.in_flight@.len() ==> #[trigger] tracks(
            self.in_flight@[s],
            last_submitted(k, s, self.frames_in_flight as int),
        )
    }

    /// What each phase guarantees of the mutable state.
    pub open spec fn phase_inv(&self) -> bool {
        match self.phase {
            Phase::Top => self.in_flight_consistent_at(self.frame_counter as int),
            Phase::RebuildWait => self.in_flight_consistent_at(self.frame_counter as int)
                && self.chain_state is Stale,
            Phase::AcquireWait => self.in_flight_consistent_at(self.frame_counter as int)
                && self.chain_state is Valid,
            Phase::SlotWait => self.in_flight_consistent_at(self.frame_counter as int)
                && self.chain_state is Valid
                && self.current_image < self.chain.images@.len(),
            Phase::Record => self.chain_state is Valid
                && self.current_image < self.chain.images@.len()
                && self.in_flight@[self.active_slot()] is None
                && (forall|s: int| 0 <= s < self.in_flight@.len() && s != self.active_slot()
                    ==> #[trigger] tracks(
                        self.in_flight@[s],
                        last_submitted(self.frame_counter as int, s, self.frames_in_flight as int),
                    ))
                && fence_witnessed(
                    self.log@,
                    self.frames_in_flight as int,
                    self.active_slot(),
                    self.frame_counter as int,
                ),
            Phase::SubmitWait => self.chain_state is Valid
                && self.current_image < self.chain.images@.len()
                && self.in_flight_consistent_at(self.frame_counter as int + 1)
                && fence_witnessed(
                    self.log@,
                    self.frames_in_flight as int,
                    self.active_slot(),
                    self.frame_counter as int,
                ),
            Phase::Failed => true,
        }
    }

    /// The scheduler's invariant: ring sizes, populated slots, chain and
    /// pool well-formedness, handle freshness, fence-gated resets, and the
    /// per-phase facts.
    pub open spec fn wf(&self) -> bool {
        &&& 1 <= self.frames_in_flight
        &&& self.slots@.len() == self.frames_in_flight
        &&& (forall|s: int| 0 <= s < self.slots@.len() ==> #[trigger] self.slots@[s].ready())
        &&& self.command_pools@.len() == self.frames_in_flight
        &&& self.in_flight@.len() == self.frames_in_flight
        &&& self.chain.wf()
        &&& self.sync.wf(self.frames_in_flight as int, self.chain.images@.len() as int)
        &&& self.chain.handles_below(self.next_handle as int)
        &&& self.sync.handles_below(self.next_handle as int)
        &&& self.viewport_width == self.chain.width
        &&& self.viewport_height == self.chain.height
        &&& reuse_gated(self.log@, self.frames_in_flight as int)
        &&& self.phase_inv()
    }

    /// Everything but the phase and the latched resize is unchanged.
    pub open spec fn core_unchanged(pre: FrameScheduler, post: FrameScheduler) -> bool {
        &&& post.frames_in_flight == pre.frames_in_flight
        &&& post.frame_counter == pre.frame_counter
        &&& post.slots == pre.slots
        &&& post.command_pools == pre.command_pools
        &&& post.sync == pre.sync
        &&& post.chain == pre.chain
        &&& post.chain_state == pre.chain_state
        &&& post.just_rebuilt == pre.just_rebuilt
        &&& post.want_width == pre.want_width
        &&& post.want_height == pre.want_height
        &&& post.viewport_width == pre.viewport_width
        &&& post.viewport_height == pre.viewport_height
        &&& post.current_image == pre.current_image
        &&& post.in_flight == pre.in_flight
        &&& post.next_handle == pre.next_handle
        &&& post.log == pre.log
    }

    /// Builds a scheduler over `slots.len()` populated ring slots and a
    /// chain of `image_count` present images at the given extent, issuing
    /// every device handle from `first_handle` on. The frame-pool fences
    /// start signalled, so the first `F` iterations pass their slot waits
    /// immediately.
    pub fn new(
        slots: Vec<Frame>,
        command_pools: Vec<u64>,
        image_count: usize,
        width: u32,
        height: u32,
        first_handle: u64,
    ) -> (r: FrameScheduler)
        requires
            1 <= slots@.len(),
            forall|s: int| 0 <= s < slots@.len() ==> #[trigger] slots@[s].ready(),
            command_pools@.len() == slots@.len(),
            1 <= image_count,
            first_handle + 4 * image_count + 1 + 2 * slots@.len() <= u64::MAX,
        ensures
            r.wf(),
            r.phase == Phase::Top,
            r.chain_state == ChainState::Valid,
            r.frame_counter == 0,
            r.frames_in_flight == slots@.len(),
            r.slots == slots,
            r.command_pools == command_pools,
            r.chain.images@.len() == image_count,
            r.chain.width == width,
            r.chain.height == height,
            r.viewport_width == width,
            r.viewport_height == height,
            r.pending_resize is None,
            r.log@ == Seq::<RingEvent>::empty(),
    {
        let frames_in_flight = slots.len();
        let (chain, after_chain) = PresentChain::create(image_count, width, height, first_handle);
        let (sync, next_handle) = SyncRing::new(frames_in_flight, image_count, after_chain);
        let in_flight = none_run(frames_in_flight);
        let r = FrameScheduler {
            frames_in_flight,
            frame_counter: 0,
            slots,
            command_pools,
            sync,
            chain,
            chain_state: ChainState::Valid,
            just_rebuilt: false,
            pending_resize: None,
            want_width: width,
            want_height: height,
            viewport_width: width,
            viewport_height: height,
            current_image: 0,
            in_flight,
            next_handle,
            phase: Phase::Top,
            log: Ghost(Seq::empty()),
        };
        proof {
            assert forall|s: int| 0 <= s < r.in_flight@.len() implies #[trigger] tracks(
                r.in_flight@[s],
                last_submitted(0, s, r.frames_in_flight as int),
            ) by {
                assert(last_submitted(0, s, r.frames_in_flight as int) is None);
            }
        }
        r
    }

    /// Latches a resize reported by the windowing layer. The current
    /// iteration is not aborted: the new extent is applied at the top of
    /// the next iteration, replacing any earlier latched extent.
    pub fn request_resize(&mut self, width: u32, height: u32)
        requires
            old(self).wf(),
        ensures
            final(self).wf(),
            final(self).phase == old(self).phase,
            final(self).pending_resize == Some((width, height)),
            Self::core_unchanged(*old(self), *final(self)),
    {
        self.pending_resize = Some((width, height));
    }

    /// Top of an iteration: applies a latched resize, then either requests
    /// a chain rebuild (when the chain is stale) or hands out the spare
    /// acquire semaphore for the next acquisition. When the chain is valid
    /// and no resize is latched, the rebuild transition finds nothing to
    /// do: the state is left exactly as it was.
    pub fn begin_frame(&mut self) -> (action: BeginAction)
        requires
            old(self).wf(),
            old(self).phase == Phase::Top,
        ensures
            final(self).wf(),
            final(self).pending_resize is None,
            // a latched resize marks the chain stale and fixes the rebuild extent
            old(self).pending_resize matches Some((w, h)) ==> final(self).chain_state is Stale
                && final(self).want_width == w
                && final(self).want_height == h,
            // stale chain: the driver is asked to rebuild at the latched extent
            final(self).chain_state is Stale ==> final(self).phase == Phase::RebuildWait
                && action == (BeginAction::Rebuild {
                    width: final(self).want_width,
                    height: final(self).want_height,
                }),
            // valid chain: the driver is asked to acquire with the spare semaphore
            final(self).chain_state is Valid ==> final(self).phase == Phase::AcquireWait
                && action == (BeginAction::Acquire { semaphore: old(self).sync.free_acquire }),
            old(self).pending_resize is None ==> final(self).chain_state == old(self).chain_state
                && final(self).want_width == old(self).want_width
                && final(self).want_height == old(self).want_height,
            // idempotence: with a valid chain and no latched resize the
            // transition is a no-op
            old(self).chain_state is Valid && old(self).pending_resize is None
                ==> Self::core_unchanged(*old(self), *final(self)),
            // in every case nothing of the ring itself moves
            final(self).frame_counter == old(self).frame_counter,
            final(self).slots == old(self).slots,
            final(self).sync == old(self).sync,
            final(self).chain == old(self).chain,
            final(self).in_flight == old(self).in_flight,
            final(self).log == old(self).log,
            final(self).frames_in_flight == old(self).frames_in_flight,
    {
        match self.pending_resize {
            Some((w, h)) => {
                self.want_width = w;
                self.want_height = h;
                self.pending_resize = None;
                self.chain_state = ChainState::Stale;
            },
            None => {},
        }
        match self.chain_state {
            ChainState::Stale => {
                self.phase = Phase::RebuildWait;
                BeginAction::Rebuild { width: self.want_width, height: self.want_height }
            },
            ChainState::Valid => {
                self.phase = Phase::AcquireWait;
                BeginAction::Acquire { semaphore: self.sync.free_acquire }
            },
        }
    }

    /// The driver finished rebuilding the chain: the device went idle, the
    /// old views and targets were destroyed, and a new chain of
    /// `image_count` images was created against the extent the rebuild was
    /// asked for. The model takes on fresh handles for the chain and a
    /// fresh acquire pool sized to the new image count — acquire
    /// semaphores are never reused across a rebuild — while the frame pool
    /// and every ring slot stay untouched. The viewport follows the new
    /// extent.
    pub fn finish_rebuild(&mut self, image_count: usize)
        requires
            old(self).wf(),
            old(self).phase == Phase::RebuildWait,
            1 <= image_count,
            old(self).next_handle + 4 * image_count + 1 <= u64::MAX,
        ensures
            final(self).wf(),
            final(self).phase == Phase::Top,
            final(self).chain_state == ChainState::Valid,
            final(self).just_rebuilt,
            // the chain is whole again: one view and one target per image,
            // at the requested extent, and the viewport follows it
            final(self).chain.wf(),
            final(self).chain.images@.len() == image_count,
            final(self).chain.views@.len() == image_count,
            final(self).chain.targets@.len() == image_count,
            final(self).chain.width == old(self).want_width,
            final(self).chain.height == old(self).want_height,
            final(self).viewport_width == old(self).want_width,
            final(self).viewport_height == old(self).want_height,
            // no pre-rebuild chain or acquire handle survives
            final(self).chain.handles_at_least(old(self).next_handle as int),
            final(self).sync.acquire_at_least(old(self).next_handle as int),
            old(self).chain.handles_below(old(self).next_handle as int),
            old(self).sync.acquire_below(old(self).next_handle as int),
            // the frame pool and the ring slots are untouched
            final(self).sync.submission_complete@ == old(self).sync.submission_complete@,
            final(self).sync.fences@ == old(self).sync.fences@,
            final(self).slots == old(self).slots,
            final(self).frame_counter == old(self).frame_counter,
            final(self).in_flight == old(self).in_flight,
            final(self).log == old(self).log,
            final(self).frames_in_flight == old(self).frames_in_flight,
            final(self).pending_resize == old(self).pending_resize,
    {
        let (chain, after_chain) = PresentChain::create(
            image_count,
            self.want_width,
            self.want_height,
            self.next_handle,
        );
        self.chain = chain;
        let next = self.sync.resize_acquire(image_count, after_chain);
        self.next_handle = next;
        self.viewport_width = self.want_width;
        self.viewport_height = self.want_height;
        self.chain_state = ChainState::Valid;
        self.just_rebuilt = true;
        self.phase = Phase::Top;
    }
}

impl FrameScheduler {
    /// The device answered the acquisition request. On an image index the
    /// spare semaphore — the one the acquisition was given — is swapped
    /// with the semaphore previously associated with that image, so the
    /// signal is bound to the right image even though the index was not
    /// known when the call was made; the spare's identity therefore
    /// changes on every acquisition. On an out-of-date report the chain is
    /// marked stale and the iteration is abandoned, except that a report
    /// arriving right after a rebuild escalates to the fatal `ChainLost`.
    pub fn finish_acquire(&mut self, outcome: AcquireOutcome) -> (r: Result<(), BackendError>)
        requires
            old(self).wf(),
            old(self).phase == Phase::AcquireWait,
            outcome matches AcquireOutcome::Image { index }
                ==> index < old(self).chain.images@.len(),
        ensures
            final(self).wf(),
            match outcome {
                AcquireOutcome::Image { index } => {
                    &&& r is Ok
                    &&& final(self).phase == Phase::SlotWait
                    &&& final(self).current_image == index
                    &&& !final(self).just_rebuilt
                    &&& final(self).sync.free_acquire == old(self).sync.image_acquire@[index as int]
                    &&& final(self).sync.image_acquire@ == old(self).sync.image_acquire@.update(
                        index as int,
                        old(self).sync.free_acquire,
                    )
                    &&& final(self).sync.free_acquire != old(self).sync.free_acquire
                    &&& final(self).sync.submission_complete@ == old(self).sync.submission_complete@
                    &&& final(self).sync.fences@ == old(self).sync.fences@
                    &&& final(self).chain_state is Valid
                },
                AcquireOutcome::OutOfDate => {
                    if old(self).just_rebuilt {
                        r == Err::<(), BackendError>(BackendError::ChainLost)
                            && final(self).phase == Phase::Failed
                    } else {
                        r is Ok && final(self).phase == Phase::Top
                            && final(self).chain_state is Stale
                            && final(self).want_width == old(self).chain.width
                            && final(self).want_height == old(self).chain.height
                            && final(self).sync == old(self).sync
                    }
                },
            },
            final(self).frame_counter == old(self).frame_counter,
            final(self).slots == old(self).slots,
            final(self).chain == old(self).chain,
            final(self).in_flight == old(self).in_flight,
            final(self).log == old(self).log,
            final(self).frames_in_flight == old(self).frames_in_flight,
            final(self).pending_resize == old(self).pending_resize,
            final(self).next_handle == old(self).next_handle,
    {
        match outcome {
            AcquireOutcome::Image { index } => {
                self.sync.rotate_acquire(index);
                self.current_image = index;
                self.just_rebuilt = false;
                self.phase = Phase::SlotWait;
                Ok(())
            },
            AcquireOutcome::OutOfDate => {
                if self.just_rebuilt {
                    self.phase = Phase::Failed;
                    Err(BackendError::ChainLost)
                } else {
                    self.chain_state = ChainState::Stale;
                    self.want_width = self.chain.width;
                    self.want_height = self.chain.height;
                    self.phase = Phase::Top;
                    Ok(())
                }
            },
        }
    }

    /// The fence the driver must wait on before the active slot may be
    /// touched: the frame-pool fence of slot `frame_counter mod F`.
    pub fn fence_to_wait(&self) -> (fence: u64)
        requires
            self.wf(),
            self.phase == Phase::SlotWait,
        ensures
            fence == self.sync.fences@[self.active_slot()],
    {
        let s = slot_for(self.frame_counter, self.frames_in_flight);
        self.sync.fences[s]
    }

    /// The driver observed the active slot's fence signalled (and reset
    /// the fence and the slot's command context). Only now is the slot
    /// safe to reuse: the submission the fence guarded was exactly the one
    /// from iteration `frame_counter - F`, the previous use of this slot,
    /// so the GPU can no longer be reading the slot's context or buffers.
    /// During the first `F` iterations the slot has no prior submission
    /// and the fence, created signalled, passes immediately.
    pub fn on_fence_signaled(&mut self)
        requires
            old(self).wf(),
            old(self).phase == Phase::SlotWait,
        ensures
            final(self).wf(),
            final(self).phase == Phase::Record,
            // the submission gating this reuse is the one from F iterations ago
            old(self).frame_counter as int >= old(self).frames_in_flight as int ==> (
                old(self).in_flight@[old(self).active_slot()] matches Some(p)
                    && p as int == old(self).frame_counter as int - old(self).frames_in_flight as int
            ),
            (old(self).frame_counter as int) < (old(self).frames_in_flight as int)
                ==> old(self).in_flight@[old(self).active_slot()] is None,
            final(self).in_flight@ == old(self).in_flight@.update(
                old(self).active_slot(),
                None::<u64>,
            ),
            // the log records the observation before the reset
            old(self).frame_counter as int >= old(self).frames_in_flight as int
                ==> final(self).log@ == old(self).log@.push(
                    (RingEvent::FenceObserved {
                        slot: old(self).active_slot(),
                        iteration: old(self).frame_counter as int - old(self).frames_in_flight as int,
                    }),
                ).push(
                    (RingEvent::ContextReset {
                        slot: old(self).active_slot(),
                        iteration: old(self).frame_counter as int,
                    }),
                ),
            (old(self).frame_counter as int) < (old(self).frames_in_flight as int)
                ==> final(self).log@ == old(self).log@.push(
                    (RingEvent::ContextReset {
                        slot: old(self).active_slot(),
                        iteration: old(self).frame_counter as int,
                    }),
                ),
            final(self).frame_counter == old(self).frame_counter,
            final(self).slots == old(self).slots,
            final(self).sync == old(self).sync,
            final(self).chain == old(self).chain,
            final(self).chain_state == old(self).chain_state,
            final(self).current_image == old(self).current_image,
            final(self).frames_in_flight == old(self).frames_in_flight,
            final(self).pending_resize == old(self).pending_resize,
            final(self).next_handle == old(self).next_handle,
            final(self).just_rebuilt == old(self).just_rebuilt,
    {
        let ghost s0 = self.active_slot();
        let ghost k = self.frame_counter as int;
        let ghost f = self.frames_in_flight as int;
        let s = slot_for(self.frame_counter, self.frames_in_flight);
        proof {
            if k >= f {
                lemma_prior_submission(k, f);
            } else {
                vstd::arithmetic::div_mod::lemma_small_mod(k as nat, f as nat);
                lemma_no_prior_submission(k, s0, f);
            }
            assert(tracks(old(self).in_flight@[s0], last_submitted(k, s0, f)));
        }
        self.in_flight.set(s, None);
        if self.frame_counter >= (self.frames_in_flight as u64) {
            proof {
                lemma_reuse_gated_push_observed_reset(self.log@, f, s0, k);
            }
            self.log = Ghost(
                self.log@.push(RingEvent::FenceObserved { slot: s0, iteration: k - f }).push(
                    RingEvent::ContextReset { slot: s0, iteration: k },
                ),
            );
            proof {
                assert(self.log@[old(self).log@.len() as int]
                    == (RingEvent::FenceObserved { slot: s0, iteration: k - f }));
                assert(fence_witnessed(self.log@, f, s0, k));
            }
        } else {
            proof {
                lemma_reuse_gated_push_early_reset(self.log@, f, s0, k);
            }
            self.log = Ghost(self.log@.push(RingEvent::ContextReset { slot: s0, iteration: k }));
        }
        self.phase = Phase::Record;
    }

    /// Writes `payload` at `offset` into the active slot's uniform upload
    /// buffer. Allowed only in the recording phase, after the slot's fence
    /// has been observed: the write can never race an in-flight GPU read.
    pub fn write_uniform(&mut self, offset: usize, payload: &Vec<u8>)
        requires
            old(self).wf(),
            old(self).phase == Phase::Record,
            offset + payload@.len()
                <= old(self).slots@[old(self).active_slot()].ubuffer->0.size,
        ensures
            final(self).wf(),
            final(self).phase == Phase::Record,
            final(self).slots@[old(self).active_slot()].ubuffer->0.data@ == spliced(
                old(self).slots@[old(self).active_slot()].ubuffer->0.data@,
                offset as int,
                payload@,
            ),
            final(self).slots@[old(self).active_slot()].ubuffer->0.size
                == old(self).slots@[old(self).active_slot()].ubuffer->0.size,
            final(self).slots@[old(self).active_slot()].vbuffer
                == old(self).slots@[old(self).active_slot()].vbuffer,
            final(self).slots@[old(self).active_slot()].desc_set
                == old(self).slots@[old(self).active_slot()].desc_set,
            forall|t: int| 0 <= t < old(self).slots@.len() && t != old(self).active_slot()
                ==> final(self).slots@[t] == old(self).slots@[t],
            final(self).slots@.len() == old(self).slots@.len(),
            final(self).frame_counter == old(self).frame_counter,
            final(self).sync == old(self).sync,
            final(self).chain == old(self).chain,
            final(self).chain_state == old(self).chain_state,
            final(self).current_image == old(self).current_image,
            final(self).in_flight == old(self).in_flight,
            // the write is an irreversible reuse of the slot: it is
            // logged, and the log stays fence-gated
            final(self).log@ == old(self).log@.push(
                (RingEvent::BufferWritten {
                    slot: old(self).active_slot(),
                    iteration: old(self).frame_counter as int,
                }),
            ),
            final(self).frames_in_flight == old(self).frames_in_flight,
            final(self).pending_resize == old(self).pending_resize,
            final(self).next_handle == old(self).next_handle,
            final(self).just_rebuilt == old(self).just_rebuilt,
    {
        let ghost s0 = self.active_slot();
        let ghost k = self.frame_counter as int;
        let ghost f = self.frames_in_flight as int;
        let s = slot_for(self.frame_counter, self.frames_in_flight);
        proof {
            assert(old(self).slots@[s as int].ready());
            lemma_reuse_gated_push_write(self.log@, f, s0, k);
        }
        self.log = Ghost(self.log@.push(RingEvent::BufferWritten { slot: s0, iteration: k }));
        proof {
            lemma_witness_transfers(old(self).log@, self.log@, f, s0, k);
        }
        let fr = &mut self.slots[s];
        match &mut fr.ubuffer {
            Some(buf) => {
                buf.write(offset, payload);
            },
            None => {},
        }
    }

    /// Writes `payload` at `offset` into the active slot's vertex upload
    /// buffer, under the same fence gating as the uniform write.
    pub fn write_vertices(&mut self, offset: usize, payload: &Vec<u8>)
        requires
            old(self).wf(),
            old(self).phase == Phase::Record,
            offset + payload@.len()
                <= old(self).slots@[old(self).active_slot()].vbuffer->0.size,
        ensures
            final(self).wf(),
            final(self).phase == Phase::Record,
            final(self).slots@[old(self).active_slot()].vbuffer->0.data@ == spliced(
                old(self).slots@[old(self).active_slot()].vbuffer->0.data@,
                offset as int,
                payload@,
            ),
            final(self).slots@[old(self).active_slot()].vbuffer->0.size
                == old(self).slots@[old(self).active_slot()].vbuffer->0.size,
            final(self).slots@[old(self).active_slot()].ubuffer
                == old(self).slots@[old(self).active_slot()].ubuffer,
            final(self).slots@[old(self).active_slot()].desc_set
                == old(self).slots@[old(self).active_slot()].desc_set,
            forall|t: int| 0 <= t < old(self).slots@.len() && t != old(self).active_slot()
                ==> final(self).slots@[t] == old(self).slots@[t],
            final(self).slots@.len() == old(self).slots@.len(),
            final(self).frame_counter == old(self).frame_counter,
            final(self).sync == old(self).sync,
            final(self).chain == old(self).chain,
            final(self).chain_state == old(self).chain_state,
            final(self).current_image == old(self).current_image,
            final(self).in_flight == old(self).in_flight,
            // the write is an irreversible reuse of the slot: it is
            // logged, and the log stays fence-gated
            final(self).log@ == old(self).log@.push(
                (RingEvent::BufferWritten {
                    slot: old(self).active_slot(),
                    iteration: old(self).frame_counter as int,
                }),
            ),
            final(self).frames_in_flight == old(self).frames_in_flight,
            final(self).pending_resize == old(self).pending_resize,
            final(self).next_handle == old(self).next_handle,
            final(self).just_rebuilt == old(self).just_rebuilt,
    {
        let ghost s0 = self.active_slot();
        let ghost k = self.frame_counter as int;
        let ghost f = self.frames_in_flight as int;
        let s = slot_for(self.frame_counter, self.frames_in_flight);
        proof {
            assert(old(self).slots@[s as int].ready());
            lemma_reuse_gated_push_write(self.log@, f, s0, k);
        }
        self.log = Ghost(self.log@.push(RingEvent::BufferWritten { slot: s0, iteration: k }));
        proof {
            lemma_witness_transfers(old(self).log@, self.log@, f, s0, k);
        }
        let fr = &mut self.slots[s];
        match &mut fr.vbuffer {
            Some(buf) => {
                buf.write(offset, payload);
            },
            None => {},
        }
    }

    /// Reads `len` bytes at `offset` from the active slot's uniform
    /// buffer. Only meaningful while the slot is idle (fence already
    /// observed), which the recording phase guarantees.
    pub fn read_uniform(&self, offset: usize, len: usize) -> (r: Vec<u8>)
        requires
            self.wf(),
            self.phase == Phase::Record,
            offset + len <= self.slots@[self.active_slot()].ubuffer->0.size,
        ensures
            r@ == self.slots@[self.active_slot()].ubuffer->0.data@.subrange(
                offset as int,
                offset as int + len as int,
            ),
    {
        let s = slot_for(self.frame_counter, self.frames_in_flight);
        proof {
            assert(self.slots@[s as int].ready());
        }
        match &self.slots[s].ubuffer {
            Some(buf) => buf.read(offset, len),
            None => {
                proof {
                    assert(self.slots@[s as int].ready());
                    assert(false);
                }
                Vec::new()
            },
        }
    }

    /// Recording is done: hands the driver the synchronization objects of
    /// this submission. The submission must wait on the acquired image's
    /// semaphore (at the color-output stage only), signal the active
    /// slot's semaphore and fence, and presentation must wait on that same
    /// slot semaphore — so presentation can never race the render.
    pub fn finish_recording(&mut self) -> (info: SubmitInfo)
        requires
            old(self).wf(),
            old(self).phase == Phase::Record,
        ensures
            final(self).wf(),
            final(self).phase == Phase::SubmitWait,
            info.wait_semaphore == old(self).sync.image_acquire@[old(self).current_image as int],
            info.signal_semaphore == old(self).sync.submission_complete@[old(self).active_slot()],
            info.signal_fence == old(self).sync.fences@[old(self).active_slot()],
            info.image_index == old(self).current_image,
            final(self).in_flight@ == old(self).in_flight@.update(
                old(self).active_slot(),
                Some(old(self).frame_counter),
            ),
            final(self).log@ == old(self).log@.push(
                (RingEvent::Submitted {
                    slot: old(self).active_slot(),
                    iteration: old(self).frame_counter as int,
                }),
            ),
            final(self).frame_counter == old(self).frame_counter,
            final(self).slots == old(self).slots,
            final(self).sync == old(self).sync,
            final(self).chain == old(self).chain,
            final(self).chain_state == old(self).chain_state,
            final(self).current_image == old(self).current_image,
            final(self).frames_in_flight == old(self).frames_in_flight,
            final(self).pending_resize == old(self).pending_resize,
            final(self).next_handle == old(self).next_handle,
            final(self).just_rebuilt == old(self).just_rebuilt,
    {
        let ghost s0 = self.active_slot();
        let ghost k = self.frame_counter as int;
        let ghost f = self.frames_in_flight as int;
        let s = slot_for(self.frame_counter, self.frames_in_flight);
        let info = SubmitInfo {
            wait_semaphore: self.sync.image_acquire[self.current_image],
            signal_semaphore: self.sync.submission_complete[s],
            signal_fence: self.sync.fences[s],
            image_index: self.current_image,
        };
        self.in_flight.set(s, Some(self.frame_counter));
        proof {
            lemma_reuse_gated_push_other(
                self.log@,
                f,
                RingEvent::Submitted { slot: s0, iteration: k },
            );
        }
        self.log = Ghost(self.log@.push(RingEvent::Submitted { slot: s0, iteration: k }));
        self.phase = Phase::SubmitWait;
        proof {
            lemma_witness_transfers(old(self).log@, self.log@, f, s0, k);
            assert forall|t: int| 0 <= t < self.in_flight@.len() implies #[trigger] tracks(
                self.in_flight@[t],
                last_submitted(k + 1, t, f),
            ) by {
                assert(last_submitted(k + 1, t, f) == if k % f == t {
                    Some(k)
                } else {
                    last_submitted(k, t, f)
                });
            }
        }
        info
    }

    /// The driver submitted and presented. Presentation waited on the
    /// slot's semaphore, so on success the iteration is complete and the
    /// counter advances — the next iteration will use the next slot of
    /// the ring. An out-of-date report marks the chain stale for the next
    /// iteration; right after a rebuild it escalates to the fatal
    /// `ChainLost` instead.
    pub fn on_present(&mut self, outcome: PresentOutcome) -> (r: Result<(), BackendError>)
        requires
            old(self).wf(),
            old(self).phase == Phase::SubmitWait,
            old(self).frame_counter < u64::MAX,
        ensures
            final(self).wf(),
            final(self).frame_counter == old(self).frame_counter + 1,
            match outcome {
                PresentOutcome::Presented => {
                    &&& r is Ok
                    &&& final(self).phase == Phase::Top
                    &&& final(self).chain_state is Valid
                    &&& !final(self).just_rebuilt
                },
                PresentOutcome::OutOfDate => {
                    if old(self).just_rebuilt {
                        r == Err::<(), BackendError>(BackendError::ChainLost)
                            && final(self).phase == Phase::Failed
                    } else {
                        r is Ok && final(self).phase == Phase::Top
                            && final(self).chain_state is Stale
                            && final(self).want_width == old(self).chain.width
                            && final(self).want_height == old(self).chain.height
                    }
                },
            },
            final(self).slots == old(self).slots,
            final(self).sync == old(self).sync,
            final(self).chain == old(self).chain,
            final(self).in_flight == old(self).in_flight,
            final(self).log == old(self).log,
            final(self).frames_in_flight == old(self).frames_in_flight,
            final(self).pending_resize == old(self).pending_resize,
            final(self).next_handle == old(self).next_handle,
    {
        self.frame_counter = self.frame_counter + 1;
        match outcome {
            PresentOutcome::Presented => {
                self.just_rebuilt = false;
                self.phase = Phase::Top;
                Ok(())
            },
            PresentOutcome::OutOfDate => {
                if self.just_rebuilt {
                    self.phase = Phase::Failed;
                    Err(BackendError::ChainLost)
                } else {
                    self.chain_state = ChainState::Stale;
                    self.want_width = self.chain.width;
                    self.want_height = self.chain.height;
                    self.phase = Phase::Top;
                    Ok(())
                }
            },
        }
    }
}

impl FrameScheduler {
    /// The handles of the ring slots' descriptor binding sets, in slot
    /// order.
    pub open spec fn desc_set_handles(&self) -> Seq<u64> {
        self.slots@.map_values(|fr: Frame| fr.desc_set->0)
    }

    /// Every handle the scheduler tracks, in the order teardown must
    /// destroy them: descriptor objects first, then the command contexts,
    /// the synchronization pools, and the chain's dependents before the
    /// chain itself — targets, then views, then the images last.
    pub open spec fn teardown_order(&self) -> Seq<u64> {
        self.desc_set_handles() + self.command_pools@ + seq![self.sync.free_acquire]
            + self.sync.image_acquire@ + self.sync.submission_complete@ + self.sync.fences@
            + self.chain.targets@ + self.chain.views@ + self.chain.images@
    }

    /// The full teardown sequence, run after the device has gone idle when
    /// a fatal condition ends the loop or at shutdown: the driver destroys
    /// the returned handles strictly in order. The order is
    /// reverse-dependency: descriptor objects, command contexts, the
    /// acquire pool, the frame pool, and the chain's targets and views
    /// before the chain's own images, which go last.
    pub fn teardown_plan(&self) -> (r: Vec<u64>)
        requires
            self.wf(),
        ensures
            r@ == self.teardown_order(),
    {
        let mut r: Vec<u64> = Vec::new();
        let n = self.slots.len();
        let mut i: usize = 0;
        while i < n
            invariant
                self.wf(),
                n == self.slots@.len(),
                i <= n,
                r@ == self.desc_set_handles().take(i as int),
            decreases n - i,
        {
            proof {
                assert(self.slots@[i as int].ready());
            }
            match &self.slots[i].desc_set {
                Some(d) => {
                    r.push(*d);
                },
                None => {},
            }
            proof {
                assert(r@ =~= self.desc_set_handles().take(i + 1));
            }
            i = i + 1;
        }
        proof {
            assert(r@ =~= self.desc_set_handles());
        }
        push_all(&mut r, &self.command_pools);
        r.push(self.sync.free_acquire);
        push_all(&mut r, &self.sync.image_acquire);
        push_all(&mut r, &self.sync.submission_complete);
        push_all(&mut r, &self.sync.fences);
        push_all(&mut r, &self.chain.targets);
        push_all(&mut r, &self.chain.views);
        push_all(&mut r, &self.chain.images);
        proof {
            assert(r@ =~= self.teardown_order());
        }
        r
    }
}

/// Appends every handle of `src_v` to `dst`, in order.
fn push_all(dst: &mut Vec<u64>, src_v: &Vec<u64>)
    ensures
        final(dst)@ == old(dst)@ + src_v@,
{
    let n = src_v.len();
    let mut i: usize = 0;
    while i < n
        invariant
            n == src_v@.len(),
            i <= n,
            dst@ == old(dst)@ + src_v@.take(i as int),
        decreases n - i,
    {
        dst.push(src_v[i]);
        proof {
            assert(dst@ =~= old(dst)@ + src_v@.take(i + 1));
        }
        i = i + 1;
    }
    proof {
        assert(final(dst)@ =~= old(dst)@ + src_v@);
    }
}

/// Appending a log entry that is neither a context reset nor a buffer
/// write cannot break fence gating.
proof fn lemma_reuse_gated_push_other(log: Seq<RingEvent>, f: int, e: RingEvent)
    requires
        reuse_gated(log, f),
        !(e is ContextReset),
        !(e is BufferWritten),
    ensures
        reuse_gated(log.push(e), f),
{
    let log2 = log.push(e);
    assert forall|j: int| 0 <= j < log2.len() implies #[trigger] reuse_gated_at(log2, f, j) by {
        if j < log.len() {
            assert(reuse_gated_at(log, f, j));
            assert(log2[j] == log[j]);
            lemma_gated_entry_transfers(log, log2, f, j);
        }
    }
}

/// A context reset during the first `f` iterations needs no prior fence
/// observation: the slot has never been submitted through.
proof fn lemma_reuse_gated_push_early_reset(log: Seq<RingEvent>, f: int, slot: int, k: int)
    requires
        reuse_gated(log, f),
        k < f,
    ensures
        reuse_gated(log.push(RingEvent::ContextReset { slot, iteration: k }), f),
{
    let log2 = log.push(RingEvent::ContextReset { slot, iteration: k });
    assert forall|j: int| 0 <= j < log2.len() implies #[trigger] reuse_gated_at(log2, f, j) by {
        if j < log.len() {
            assert(reuse_gated_at(log, f, j));
            assert(log2[j] == log[j]);
            lemma_gated_entry_transfers(log, log2, f, j);
        }
    }
}

/// Observing the fence of the slot's submission from `k - f` and then
/// resetting the slot's context at `k` keeps the log fence-gated: the
/// observation is the gating witness for the reset.
proof fn lemma_reuse_gated_push_observed_reset(log: Seq<RingEvent>, f: int, slot: int, k: int)
    requires
        reuse_gated(log, f),
        k >= f,
    ensures
        reuse_gated(
            log.push(RingEvent::FenceObserved { slot, iteration: k - f }).push(
                RingEvent::ContextReset { slot, iteration: k },
            ),
            f,
        ),
{
    let log1 = log.push(RingEvent::FenceObserved { slot, iteration: k - f });
    lemma_reuse_gated_push_other(log, f, RingEvent::FenceObserved { slot, iteration: k - f });
    let log2 = log1.push(RingEvent::ContextReset { slot, iteration: k });
    assert forall|j: int| 0 <= j < log2.len() implies #[trigger] reuse_gated_at(log2, f, j) by {
        if j < log1.len() {
            assert(reuse_gated_at(log1, f, j));
            assert(log2[j] == log1[j]);
            lemma_gated_entry_transfers(log1, log2, f, j);
        } else {
            assert(log2[j] == (RingEvent::ContextReset { slot, iteration: k }));
            assert(log2[log.len() as int]
                == (RingEvent::FenceObserved { slot, iteration: k - f }));
        }
    }
}

/// A gated entry of a log stays gated in any extension of that log: the
/// entry and its witness keep their positions.
proof fn lemma_gated_entry_transfers(log: Seq<RingEvent>, log2: Seq<RingEvent>, f: int, j: int)
    requires
        0 <= j < log.len(),
        log.len() <= log2.len(),
        forall|i: int| 0 <= i < log.len() ==> log2[i] == log[i],
        reuse_gated_at(log, f, j),
    ensures
        reuse_gated_at(log2, f, j),
{
    match log[j] {
        RingEvent::ContextReset { slot, iteration } => {
            if iteration >= f {
                let i = choose|i: int| 0 <= i < j && log[i]
                    == (RingEvent::FenceObserved { slot, iteration: iteration - f });
                assert(log2[i] == (RingEvent::FenceObserved { slot, iteration: iteration - f }));
            }
        },
        RingEvent::BufferWritten { slot, iteration } => {
            if iteration >= f {
                let i = choose|i: int| 0 <= i < j && log[i]
                    == (RingEvent::FenceObserved { slot, iteration: iteration - f });
                assert(log2[i] == (RingEvent::FenceObserved { slot, iteration: iteration - f }));
            }
        },
        _ => {},
    }
}

/// A buffer write at iteration `k` whose gating fence observation already
/// stands in the log keeps the log gated.
proof fn lemma_reuse_gated_push_write(log: Seq<RingEvent>, f: int, slot: int, k: int)
    requires
        reuse_gated(log, f),
        fence_witnessed(log, f, slot, k),
    ensures
        reuse_gated(log.push(RingEvent::BufferWritten { slot, iteration: k }), f),
{
    let log2 = log.push(RingEvent::BufferWritten { slot, iteration: k });
    assert forall|j: int| 0 <= j < log2.len() implies #[trigger] reuse_gated_at(log2, f, j) by {
        if j < log.len() {
            assert(reuse_gated_at(log, f, j));
            assert(log2[j] == log[j]);
            lemma_gated_entry_transfers(log, log2, f, j);
        } else {
            if k >= f {
                let i = choose|i: int| 0 <= i < log.len() && log[i]
                    == (RingEvent::FenceObserved { slot, iteration: k - f });
                assert(log2[i] == (RingEvent::FenceObserved { slot, iteration: k - f }));
            }
        }
    }
}

/// An observation that stands in a log stands in any extension of it.
proof fn lemma_witness_transfers(log: Seq<RingEvent>, log2: Seq<RingEvent>, f: int, slot: int, k: int)
    requires
        log.len() <= log2.len(),
        forall|i: int| 0 <= i < log.len() ==> log2[i] == log[i],
        fence_witnessed(log, f, slot, k),
    ensures
        fence_witnessed(log2, f, slot, k),
{
    if k >= f {
        let i = choose|i: int| 0 <= i < log.len() && log[i]
            == (RingEvent::FenceObserved { slot, iteration: k - f });
        assert(log2[i] == (RingEvent::FenceObserved { slot, iteration: k - f }));
    }
}

/// Fence-gated slot reuse, the defining correctness property of the ring:
/// in every reachable scheduler state, the log shows no context reset and
/// no upload-buffer write for an iteration `k >= F` without an earlier
/// observation of the fence signalled by the same slot's submission from
/// iteration `k - F`. The CPU therefore never rewrites a command context
/// or upload buffer that the GPU might still be reading.
pub proof fn lemma_slot_reuse_fence_gated(s: &FrameScheduler)
    requires
        s.wf(),
    ensures
        reuse_gated(s.log@, s.frames_in_flight as int),
{
}

/// A run of `count` empty bookkeeping entries: no slot has an outstanding
/// submission yet.
fn none_run(count: usize) -> (v: Vec<Option<u64>>)
    ensures
        v@.len() == count,
        forall|i: int| 0 <= i < count ==> v@[i] is None,
{
    let mut v: Vec<Option<u64>> = Vec::new();
    let mut i: usize = 0;
    while i < count
        invariant
            i <= count,
            v@.len() == i,
            forall|j: int| 0 <= j < i ==> v@[j] is None,
        decreases count - i,
    {
        v.push(None);
        i = i + 1;
    }
    v
}

} // verus!
