//! Ring arithmetic: which slot an iteration uses, and which earlier
//! iteration last submitted through that slot.

use vstd::prelude::*;
use vstd::arithmetic::div_mod::{
    lemma_mod_add_multiples_vanish, lemma_mod_division_less_than_divisor, lemma_mod_sub_multiples_vanish,
    lemma_small_mod,
};

verus! {

/// The ring slot that iteration `frame_counter` uses when `frames_in_flight`
/// slots exist: the counter modulo the slot count. Every CPU-owned resource
/// of the iteration (command context, binding set, upload buffers) is taken
/// from this slot; the present-image index is unrelated to it.
pub fn slot_for(frame_counter: u64, frames_in_flight: usize) -> (slot: usize)
    requires
        1 <= frames_in_flight,
    ensures
        slot == frame_counter as int % frames_in_flight as int,
        slot < frames_in_flight,
{
    proof {
        lemma_mod_division_less_than_divisor(frame_counter as int, frames_in_flight as int);
    }
    (frame_counter % (frames_in_flight as u64)) as usize
}

/// The iteration of the most recent submission through slot `slot` before
/// the frame counter reached `k`: the largest `k' < k` with `k' % f == slot`,
/// or `None` when no iteration below `k` used that slot.
pub open spec fn last_submitted(k: int, slot: int, f: int) -> Option<int>
    decreases k,
{
    if k <= 0 {
        None
    } else if (k - 1) % f == slot {
        Some(k - 1)
    } else {
        last_submitted(k - 1, slot, f)
    }
}

/// A slot that no iteration below `k` has used has no prior submission.
/// In particular, during the first `f` iterations the slot `k % f == k` is
/// being used for the first time.
pub proof fn lemma_no_prior_submission(k: int, slot: int, f: int)
    requires
        1 <= f,
        0 <= slot < f,
        k <= slot,
    ensures
        last_submitted(k, slot, f) is None,
    decreases k,
{
    if k > 0 {
        lemma_small_mod((k - 1) as nat, f as nat);
        lemma_no_prior_submission(k - 1, slot, f);
    }
}

/// `(base + j) % f` equals `(base % f + j) % f`.
proof fn lemma_mod_mixed(base: int, j: int, f: int)
    requires
        1 <= f,
        0 <= base,
        0 <= j,
    ensures
        (base + j) % f == ((base % f) + j) % f,
    decreases base,
{
    if base < f {
        lemma_small_mod(base as nat, f as nat);
    } else {
        lemma_mod_sub_multiples_vanish(base + j, f);
        lemma_mod_sub_multiples_vanish(base, f);
        lemma_mod_mixed(base - f, j, f);
    }
}

/// Stepping the counter past iterations that use other slots does not
/// change a slot's most recent submission: every counter value in
/// `base + 1 ..= base + 1 + j` (with `j < f`) sees `base` as the last
/// submission through `base`'s own slot.
proof fn lemma_window(base: int, j: int, slot: int, f: int)
    requires
        1 <= f,
        0 <= slot < f,
        0 <= base,
        base % f == slot,
        0 <= j < f,
    ensures
        last_submitted(base + 1 + j, slot, f) == Some(base),
    decreases j,
{
    if j > 0 {
        let k1 = base + j;
        assert(k1 % f == (slot + j) % f) by {
            lemma_mod_mixed(base, j, f);
        }
        if slot + j < f {
            lemma_small_mod((slot + j) as nat, f as nat);
            assert(k1 % f != slot);
        } else {
            assert((slot + j) % f == ((slot + j - f) + f) % f);
            lemma_mod_add_multiples_vanish(slot + j - f, f);
            lemma_small_mod((slot + j - f) as nat, f as nat);
            assert(k1 % f != slot);
        }
        lemma_window(base, j - 1, slot, f);
    }
}

/// At iteration `k >= f` the slot being reused is `k % f`, and the
/// submission still pending on it is the one from iteration `k - f`: the
/// fence the scheduler waits on before touching slot `k % f` guards exactly
/// that submission.
pub proof fn lemma_prior_submission(k: int, f: int)
    requires
        1 <= f,
        f <= k,
    ensures
        last_submitted(k, k % f, f) == Some(k - f),
{
    let slot = k % f;
    let base = k - f;
    lemma_mod_division_less_than_divisor(k, f);
    assert(base % f == slot) by {
        lemma_mod_sub_multiples_vanish(k, f);
    }
    lemma_window(base, f - 1, slot, f);
}

} // verus!
