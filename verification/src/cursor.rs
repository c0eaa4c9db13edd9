//! A reader's position in a shared ring.

use std::sync::Arc;
use vstd::prelude::*;
use crate::ring::Queue;
use crate::rounding::{least_power_of_two_from, MAX_CAPACITY};
use crate::sequence::{
    completed_epoch, epoch_bits, has_lifetime, in_lifetime, in_progress, lemma_spent_epoch,
    valid_capacity, write_in_progress, SENTINEL_MASK,
};
use crate::slot::SPIN_LIMIT;

verus! {

/// What a cursor makes of the epoch word of a read that gave no value.
#[derive(Clone, Copy, PartialEq, Eq, Debug, Structural)]
pub enum Miss {
    /// The write is under way or still to come: there is nothing to hand out.
    Idle,
    /// The slot holds a later generation: the producers have lapped the cursor.
    Lapped,
}

/// The judgement of the epoch word `observed`, which a read at a sequence
/// number of the epoch `expected_epoch` came back with.
pub open spec fn miss_of(observed: usize, expected_epoch: int) -> Miss {
    if in_progress(observed) || epoch_bits(observed) <= expected_epoch {
        Miss::Idle
    } else {
        Miss::Lapped
    }
}

/// Judges the epoch word of a read that gave no value.
pub fn judge_miss(observed: usize, expected_epoch: usize) -> (m: Miss)
    ensures
        m == miss_of(observed, expected_epoch as int),
{
    let in_progress = write_in_progress(observed);
    let epoch = completed_epoch(observed);
    if epoch <= expected_epoch || in_progress {
        Miss::Idle
    } else {
        Miss::Lapped
    }
}

/// What one attempt of `next` comes to, by what the read at the cursor gave.
#[derive(Clone, Copy, PartialEq, Eq, Debug)]
pub enum Attempt<T> {
    /// The read gave this value: it is handed out, and the cursor moves on
    /// by one.
    Hand(T),
    /// There is nothing to hand out: `next` gives nothing, and the cursor
    /// stays.
    Nothing,
    /// The producers have lapped the cursor: it catches up, and where the
    /// margin allows, `next` makes another attempt from where it landed.
    CatchUp,
}

/// What an attempt comes to whose read, at a sequence number of the epoch
/// `expected_epoch`, gave `outcome`.
pub open spec fn attempt_of<T>(outcome: Result<T, usize>, expected_epoch: int) -> Attempt<T> {
    match outcome {
        Ok(dat) => Attempt::Hand(dat),
        Err(word) => match miss_of(word, expected_epoch) {
            Miss::Idle => Attempt::Nothing,
            Miss::Lapped => Attempt::CatchUp,
        },
    }
}

/// Decides an attempt of `next` from what its read gave.
pub fn attempt<T>(outcome: Result<T, usize>, expected_epoch: usize) -> (a: Attempt<T>)
    ensures
        a == attempt_of(outcome, expected_epoch as int),
{
    match outcome {
        Ok(dat) => Attempt::Hand(dat),
        Err(word) => match judge_miss(word, expected_epoch) {
            Miss::Idle => Attempt::Nothing,
            Miss::Lapped => Attempt::CatchUp,
        },
    }
}

/// The margin of the first catch-up of a call of `next`.
pub const FIRST_MARGIN: usize = 1;

/// The margin of the attempt after one that caught up with `margin`: twice
/// as wide, and none where that reaches the capacity, which ends the
/// attempts.
pub open spec fn margin_after(margin: int, capacity: int) -> Option<int> {
    if 2 * margin < capacity {
        Some(2 * margin)
    } else {
        None
    }
}

/// Computes the margin of the next attempt.
pub fn next_margin(margin: usize, capacity: usize) -> (m: Option<usize>)
    requires
        1 <= margin < capacity,
    ensures
        m matches Some(n) ==> margin_after(margin as int, capacity as int) == Some(n as int),
        m is None ==> margin_after(margin as int, capacity as int) is None,
{
    if margin < capacity - margin {
        Some(margin * 2)
    } else {
        None
    }
}

/// Where a cursor lands that catches up with a ring whose write pointer is
/// `write_ptr`: `margin` slots above the oldest sequence number that the
/// ring still holds. The arithmetic wraps where that would be below zero,
/// which it is on no ring: a write pointer starts at the capacity.
pub open spec fn landing_of(write_ptr: usize, capacity: int, margin: int) -> int {
    let landing = write_ptr - capacity + margin;
    if landing >= 0 {
        landing
    } else {
        landing + usize::MAX + 1
    }
}

/// Computes the landing of a catch-up.
pub fn landing(write_ptr: usize, capacity: usize, margin: usize) -> (seq: usize)
    requires
        1 <= margin < capacity,
    ensures
        seq == landing_of(write_ptr, capacity as int, margin as int),
{
    write_ptr.wrapping_sub(capacity).wrapping_add(margin)
}

/// A landing lies among the sequence numbers that the ring still holds:
/// above the oldest of them and below the write pointer.
pub proof fn lemma_landing_in_window(write_ptr: usize, capacity: int, margin: int)
    requires
        1 <= margin < capacity <= write_ptr,
    ensures
        write_ptr - capacity < landing_of(write_ptr, capacity, margin) < write_ptr,
{
}

/// Another handle on the ring that `ring` points to. Calls `Arc::clone`,
/// which makes a new pointer to the same allocation.
#[verifier::external_body]
fn share<T: Copy>(ring: &Arc<Queue<T>>) -> (r: Arc<Queue<T>>)
    ensures
        r == *ring,
{
    Arc::clone(ring)
}

/// A reader of a ring, which any number of readers and producers share.
pub struct QueueClient<T: Copy> {
    queue: Arc<Queue<T>>,
    to_read: usize,
}

impl<T: Copy> QueueClient<T> {
    /// The ring that this cursor reads.
    pub closed spec fn ring(&self) -> Queue<T> {
        *self.queue
    }

    /// The number of slots of the ring.
    pub open spec fn capacity(&self) -> int {
        self.ring().capacity()
    }

    /// The sequence number that this cursor reads next.
    pub closed spec fn position(&self) -> usize {
        self.to_read
    }
}

impl<T: Copy> Clone for QueueClient<T> {
    /// A second cursor on the same ring, at the same position.
    fn clone(&self) -> (r: Self)
        ensures
            r.ring() == self.ring(),
            r.position() == self.position(),
    {
        QueueClient { queue: share(&self.queue), to_read: self.to_read }
    }
}

impl<T: Copy + Default> QueueClient<T> {
    /// A new ring of the least power of two of slots that holds `size` of
    /// them, and its first cursor, which stands at the first write.
    pub fn new_queue(size: usize) -> (c: Self)
        requires
            1 <= size <= MAX_CAPACITY,
        ensures
            least_power_of_two_from(c.capacity(), size as int),
            c.position() == c.capacity(),
    {
        let q = Queue::new(size);
        let to_read = q.size();
        QueueClient { queue: Arc::new(q), to_read }
    }

    /// Moves the cursor to `margin` slots above the oldest sequence number
    /// that the ring holds now.
    pub fn catch_up(&mut self, margin: usize)
        requires
            1 <= margin < old(self).capacity(),
        ensures
            final(self).ring() == old(self).ring(),
    {
        self.to_read = landing(self.queue.next_write_ptr(), self.queue.size(), margin);
    }

    /// The number of slots of the ring.
    pub fn size(&self) -> (n: usize)
        ensures
            n == self.capacity(),
            valid_capacity(n as int),
    {
        self.queue.size()
    }

    /// Pushes `data` to the ring.
    pub fn push(&self, data: T) {
        self.queue.push(data)
    }

    /// The value at the cursor, if it is there, and then the cursor moves on
    /// by one. Where the producers have lapped the cursor, it first catches
    /// up, with a margin that doubles at each further attempt; the attempts
    /// end where the margin reaches the capacity.
    ///
    /// Each attempt reads at the cursor, and `attempt` decides from what the
    /// read gave: the value is handed out, or there is nothing, or the
    /// cursor catches up with the attempt's margin. The first margin is
    /// `FIRST_MARGIN`, and `next_margin` gives the margin of the attempt
    /// after a catch-up, or ends the attempts.
    ///
    /// A value comes from a sequence number within the ring's lifetime, and
    /// the cursor then stands one above it. A ring of one slot leaves no
    /// margin, and a cursor beyond the lifetime finds no write: both get
    /// nothing and stay. On a ring of two slots the one catch-up uses the
    /// margin up, so a value can only come from where the cursor stood.
    pub fn next(&mut self) -> (r: Option<T>)
        ensures
            final(self).ring() == old(self).ring(),
            r is Some ==> final(self).position() >= 1 && in_lifetime(
                (final(self).position() - 1) as usize,
                final(self).capacity(),
            ),
            r is Some && old(self).capacity() <= 2 ==> final(self).position() == old(
                self,
            ).position() + 1,
            old(self).capacity() < 2 || old(self).position() >= SENTINEL_MASK ==> r is None
                && final(self).position() == old(self).position(),
    {
        let size = self.queue.size();
        let mut margin: usize = FIRST_MARGIN;
        while margin < size
            invariant
                1 <= margin,
                margin == 1 ==> self.position() == old(self).position(),
                size < 2 || old(self).position() >= SENTINEL_MASK ==> margin == 1,
                size == self.capacity(),
                valid_capacity(size as int),
                self.ring() == old(self).ring(),
            decreases size - margin,
        {
            let outcome = self.queue.read(self.to_read);
            proof {
                if self.to_read >= SENTINEL_MASK {
                    lemma_spent_epoch(self.to_read, self.capacity());
                }
            }
            match attempt(outcome, self.queue.epoch(self.to_read)) {
                Attempt::Hand(data) => {
                    self.to_read += 1;
                    return Some(data);
                },
                Attempt::Nothing => {
                    return None;
                },
                Attempt::CatchUp => {
                    self.catch_up(margin);
                },
            }
            match next_margin(margin, size) {
                Some(wider) => {
                    margin = wider;
                },
                None => {
                    return None;
                },
            }
        }
        None
    }

    /// Polls `next` until it gives a value. After `SPIN_LIMIT` polls
    /// without one the default payload is returned.
    ///
    /// Where `next` can give nothing, the default payload is what comes
    /// back: on a ring of one slot, on a ring without a lifetime, and for a
    /// cursor beyond the lifetime. On the first and for the last the cursor
    /// also stays where it is.
    pub fn next_blocking(&mut self) -> (r: T)
        ensures
            final(self).ring() == old(self).ring(),
            old(self).capacity() < 2 || old(self).position() >= SENTINEL_MASK
                ==> final(self).position() == old(self).position(),
            old(self).capacity() < 2 || old(self).position() >= SENTINEL_MASK
                || !has_lifetime(old(self).capacity()) ==> T::default.ensures((), r),
    {
        let mut spins: usize = SPIN_LIMIT;
        while spins > 0
            invariant
                self.ring() == old(self).ring(),
                old(self).capacity() < 2 || old(self).position() >= SENTINEL_MASK
                    ==> self.position() == old(self).position(),
            decreases spins,
        {
            match self.next() {
                Some(data) => {
                    return data;
                },
                None => {},
            }
            spins -= 1;
        }
        T::default()
    }

    /// The newest value of the ring that is complete; the default payload
    /// on a ring that nothing was pushed to, and on one without a lifetime.
    /// The cursor stays where it is.
    pub fn latest(&self) -> (r: T)
        ensures
            !has_lifetime(self.capacity()) ==> T::default.ensures((), r),
    {
        self.queue.read_latest()
    }
}

} // verus!
