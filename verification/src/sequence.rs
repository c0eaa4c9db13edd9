//! Sequence numbers and epoch words.
//!
//! A sequence number names one write in the life of a ring. Its low bits
//! pick the slot; the rest is the epoch, which tells one pass over the ring
//! from the next and goes up by the capacity from pass to pass. A slot's
//! epoch word holds the epoch of the write that is in the slot, and in its
//! top bit the sentinel of a write that is under way.
//!
//! Epoch 0 is a slot that was never written, so the first write of a ring
//! has the capacity as its sequence number. An epoch must leave the top bit
//! to the sentinel, so the last write has the sequence number
//! `SENTINEL_MASK - 1`: a ring takes `SENTINEL_MASK - capacity` writes in
//! its life, and nothing that is reserved after them is written or read.
//! A ring of the largest capacity takes none.

use vstd::prelude::*;
use vstd::arithmetic::power::pow;
use vstd::arithmetic::power2::{is_pow2, is_pow2_equiv, lemma2_to64, lemma_pow2_strictly_increases, pow2};
use vstd::bits::{lemma_usize_low_bits_mask_is_mod, low_bits_mask};
use crate::rounding::{lemma_max_capacity_is_pow2, lemma_pow2_divides, MAX_CAPACITY};

verus! {

/// The top bit of an epoch word: set from a writer's claim until it
/// publishes. It is also the first sequence number beyond a ring's lifetime.
pub const SENTINEL_MASK: usize = usize::MAX / 2 + 1;

/// A capacity that a ring can have.
pub open spec fn valid_capacity(cap: int) -> bool {
    is_pow2(cap) && cap <= MAX_CAPACITY
}

/// The slot that the write at `seq` goes to.
pub open spec fn slot_of(seq: usize, cap: int) -> int {
    seq as int % cap
}

/// The epoch of the write at `seq`: `seq` less its slot.
pub open spec fn epoch_of(seq: usize, cap: int) -> int {
    seq - seq as int % cap
}

/// Whether `seq` can name a completed write: the first write has the
/// sequence number `cap`, and an epoch must leave the sentinel bit clear.
pub open spec fn in_lifetime(seq: usize, cap: int) -> bool {
    cap <= seq < SENTINEL_MASK
}

/// Whether a ring of `cap` slots takes any write in its life.
pub open spec fn has_lifetime(cap: int) -> bool {
    cap < SENTINEL_MASK
}

/// The sequence number that was reserved last on a ring whose write pointer
/// is `write_ptr`: the one before it. From 0, which a write pointer is on
/// no ring, it wraps to the largest word.
pub open spec fn newest_of(write_ptr: usize) -> usize {
    if write_ptr > 0 {
        (write_ptr - 1) as usize
    } else {
        usize::MAX
    }
}

/// Whether `word` is the epoch word of a slot in which the write at `seq`
/// is resident: complete, and not yet overwritten.
pub open spec fn resident(word: usize, seq: usize, cap: int) -> bool {
    in_lifetime(seq, cap) && word == epoch_of(seq, cap)
}

/// Whether an epoch word carries the sentinel.
pub open spec fn in_progress(word: usize) -> bool {
    word >= SENTINEL_MASK
}

/// The epoch that an epoch word holds beside the sentinel.
pub open spec fn epoch_bits(word: usize) -> int {
    if word >= SENTINEL_MASK {
        word - SENTINEL_MASK
    } else {
        word as int
    }
}

proof fn lemma_and_not(x: usize, m: usize)
    by (bit_vector)
    ensures
        x & !m == x - (x & m),
{
}

proof fn lemma_top_bit(w: u64, s: u64)
    by (bit_vector)
    requires
        s == 0x8000_0000 || s == 0x8000_0000_0000_0000,
        w <= s + (s - 1),
    ensures
        w & s == (if w >= s { s } else { 0 }),
        w < s ==> w | s == w + s,
{
}

/// The sentinel is one bit: masking with it tells on which side of it a
/// word lies, and setting it on a smaller word adds it.
pub proof fn lemma_sentinel_bit(word: usize)
    ensures
        word & SENTINEL_MASK == (if word >= SENTINEL_MASK { SENTINEL_MASK } else { 0 }),
        word & !SENTINEL_MASK == epoch_bits(word),
        word < SENTINEL_MASK ==> word | SENTINEL_MASK == word + SENTINEL_MASK,
{
    lemma_top_bit(word as u64, SENTINEL_MASK as u64);
    lemma_and_not(word, SENTINEL_MASK);
}

/// With a ring's index mask, `&` takes the remainder by the capacity and
/// `& !` takes the rest.
pub proof fn lemma_mask_splits(seq: usize, mask: usize)
    requires
        valid_capacity(mask + 1),
    ensures
        seq & mask == slot_of(seq, mask + 1),
        seq & !mask == epoch_of(seq, mask + 1),
{
    let cap = mask + 1;
    is_pow2_equiv(cap);
    let n = choose|i: nat| pow(2, i) == cap;
    lemma2_to64();
    if n > usize::BITS {
        lemma_pow2_strictly_increases(usize::BITS as nat, n);
    }
    lemma_usize_low_bits_mask_is_mod(seq, n);
    lemma_and_not(seq, mask);
}

/// A sequence number is its epoch plus its slot; the slot lies within the
/// ring and the epoch is a multiple of the capacity.
pub proof fn lemma_sequence_splits(seq: usize, cap: int)
    requires
        valid_capacity(cap),
    ensures
        epoch_of(seq, cap) + slot_of(seq, cap) == seq,
        0 <= slot_of(seq, cap) < cap,
        0 <= epoch_of(seq, cap) <= seq,
        epoch_of(seq, cap) % cap == 0,
{
    reveal(is_pow2);
    vstd::arithmetic::div_mod::lemma_fundamental_div_mod(seq as int, cap);
    vstd::arithmetic::div_mod::lemma_mod_multiples_basic(seq as int / cap, cap);
}

/// From the first write on, the epoch of a sequence number is a generation
/// that was written: it is at least the capacity. It is never above the
/// sequence number, so within a ring's lifetime it leaves the sentinel bit
/// clear.
pub proof fn lemma_live_epoch(seq: usize, cap: int)
    requires
        valid_capacity(cap),
        cap <= seq,
    ensures
        cap <= epoch_of(seq, cap) <= seq,
        in_lifetime(seq, cap) ==> epoch_of(seq, cap) < SENTINEL_MASK,
{
    reveal(is_pow2);
    lemma_sequence_splits(seq, cap);
    let q = seq as int / cap;
    vstd::arithmetic::div_mod::lemma_fundamental_div_mod(seq as int, cap);
    assert(q >= 1 && cap * q >= cap) by (nonlinear_arith)
        requires
            seq as int == cap * q + (seq as int % cap),
            0 <= seq as int % cap < cap,
            cap <= seq as int,
    ;
}

/// Beyond a ring's lifetime every epoch carries the sentinel bit, so no
/// completed epoch is above it.
pub proof fn lemma_spent_epoch(seq: usize, cap: int)
    requires
        valid_capacity(cap),
        seq >= SENTINEL_MASK,
    ensures
        epoch_of(seq, cap) >= SENTINEL_MASK,
{
    reveal(is_pow2);
    lemma_max_capacity_is_pow2();
    lemma_pow2_divides(cap, SENTINEL_MASK as int);
    lemma_sequence_splits(seq, cap);
    let top = SENTINEL_MASK as int;
    let epoch = epoch_of(seq, cap);
    if epoch < top {
        vstd::arithmetic::div_mod::lemma_fundamental_div_mod(top, cap);
        vstd::arithmetic::div_mod::lemma_fundamental_div_mod(epoch, cap);
        let a = top / cap;
        let b = epoch / cap;
        assert(false) by (nonlinear_arith)
            requires
                cap > 0,
                top == cap * a,
                epoch == cap * b,
                epoch < top,
                top - epoch < cap,
        ;
    }
}

/// The next sequence number either moves to the next slot of the same
/// epoch or, from the last slot, to slot 0 of the epoch one capacity on.
pub proof fn lemma_successor(seq: usize, cap: int)
    requires
        valid_capacity(cap),
        seq < usize::MAX,
    ensures
        slot_of(seq, cap) < cap - 1 ==> {
            &&& slot_of((seq + 1) as usize, cap) == slot_of(seq, cap) + 1
            &&& epoch_of((seq + 1) as usize, cap) == epoch_of(seq, cap)
        },
        slot_of(seq, cap) == cap - 1 ==> {
            &&& slot_of((seq + 1) as usize, cap) == 0
            &&& epoch_of((seq + 1) as usize, cap) == epoch_of(seq, cap) + cap
        },
{
    reveal(is_pow2);
    let next = (seq + 1) as usize;
    lemma_sequence_splits(seq, cap);
    lemma_sequence_splits(next, cap);
    let q = seq as int / cap;
    vstd::arithmetic::div_mod::lemma_fundamental_div_mod(seq as int, cap);
    if slot_of(seq, cap) < cap - 1 {
        vstd::arithmetic::div_mod::lemma_fundamental_div_mod_converse(
            next as int,
            cap,
            q,
            slot_of(seq, cap) + 1,
        );
    } else {
        assert(next as int == (q + 1) * cap + 0) by (nonlinear_arith)
            requires
                next as int == seq as int + 1,
                seq as int == cap * q + (cap - 1),
        ;
        vstd::arithmetic::div_mod::lemma_fundamental_div_mod_converse(next as int, cap, q + 1, 0);
    }
}

/// The first write of a ring opens generation one in slot 0.
pub proof fn lemma_first_sequence(cap: int)
    requires
        valid_capacity(cap),
    ensures
        slot_of(cap as usize, cap) == 0,
        epoch_of(cap as usize, cap) == cap,
{
    reveal(is_pow2);
    vstd::arithmetic::div_mod::lemma_mod_self_0(cap);
}

/// Whether the sentinel is set in `word`.
pub fn write_in_progress(word: usize) -> (b: bool)
    ensures
        b == in_progress(word),
{
    proof {
        lemma_sentinel_bit(word);
    }
    word & SENTINEL_MASK > 0
}

/// `word` with the sentinel cleared.
pub fn completed_epoch(word: usize) -> (e: usize)
    ensures
        e == epoch_bits(word),
{
    proof {
        lemma_sentinel_bit(word);
    }
    word & !SENTINEL_MASK
}

/// The word that claims a slot for the write of `new_epoch`.
pub fn claim_word(new_epoch: usize) -> (w: usize)
    requires
        new_epoch < SENTINEL_MASK,
    ensures
        w == new_epoch + SENTINEL_MASK,
        in_progress(w),
        epoch_bits(w) == new_epoch,
{
    proof {
        lemma_sentinel_bit(new_epoch);
    }
    new_epoch | SENTINEL_MASK
}

/// Whether `seq` lies within the lifetime of a ring of `capacity` slots.
pub fn within_lifetime(seq: usize, capacity: usize) -> (b: bool)
    ensures
        b == in_lifetime(seq, capacity as int),
{
    capacity <= seq && seq < SENTINEL_MASK
}

/// The sequence number that was reserved last, from the write pointer.
pub fn newest_reserved(write_ptr: usize) -> (seq: usize)
    ensures
        seq == newest_of(write_ptr),
{
    write_ptr.wrapping_sub(1)
}

} // verus!
