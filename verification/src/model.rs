//! The ring as it behaves while no two operations overlap.
//!
//! The executable ring keeps its state in atomics, of which a contract
//! can say nothing. The model holds the epoch word and the payload of every
//! slot as plain values and takes each operation as one step. It is built
//! from the spec functions that state what the executable decisions
//! compute: `resident` for a read, `newest_of` for the write that was
//! reserved last, `attempt_of`, `margin_after` and `landing_of` for a
//! cursor. The laws below say what those decisions add up to: which
//! sequence numbers are reserved, which of them can be read, what the
//! latest value is, and what a cursor hands out.

use vstd::prelude::*;
use vstd::arithmetic::div_mod::{lemma_fundamental_div_mod, lemma_fundamental_div_mod_converse};
use vstd::arithmetic::power2::is_pow2;
use crate::cursor::{
    attempt_of, landing_of, margin_after, miss_of, Attempt, Miss, FIRST_MARGIN,
};
use crate::slot::SPIN_LIMIT;
use crate::sequence::{
    epoch_bits, epoch_of, in_lifetime, in_progress, lemma_live_epoch, lemma_sequence_splits,
    newest_of, resident, slot_of, valid_capacity, SENTINEL_MASK,
};

verus! {

/// A slot: its epoch word and its payload.
pub struct SlotModel<T> {
    pub word: usize,
    pub payload: T,
}

impl<T> SlotModel<T> {
    /// The slot after a writer of `new_epoch` has claimed it, or `None`
    /// where the slot does not hold the epoch one `step` before.
    pub open spec fn claim(self, new_epoch: usize, step: usize) -> Option<Self> {
        if self.word == new_epoch - step {
            Some(SlotModel { word: (new_epoch + SENTINEL_MASK) as usize, payload: self.payload })
        } else {
            None
        }
    }

    /// The slot after the writer that holds it has stored `dat`.
    pub open spec fn store(self, dat: T) -> Self {
        SlotModel { word: self.word, payload: dat }
    }

    /// The slot after the writer that holds it has published `new_epoch`.
    pub open spec fn publish(self, new_epoch: usize) -> Self {
        SlotModel { word: new_epoch, payload: self.payload }
    }

    /// The slot after a whole write: claimed, stored and published, or
    /// left as it was where the claim fails.
    pub open spec fn write(self, dat: T, new_epoch: usize, step: usize) -> Self {
        match self.claim(new_epoch, step) {
            Some(claimed) => claimed.store(dat).publish(new_epoch),
            None => self,
        }
    }
}

/// A ring: its capacity, its write pointer and its slots.
pub struct RingModel<T> {
    pub capacity: int,
    pub write_ptr: usize,
    pub slots: Seq<SlotModel<T>>,
}

impl<T> RingModel<T> {
    /// A ring as it is made: every slot holds `initial` at epoch 0, and the
    /// first write will have the capacity as its sequence number.
    pub open spec fn fresh(capacity: int, initial: T) -> Self {
        RingModel {
            capacity,
            write_ptr: capacity as usize,
            slots: Seq::new(capacity as nat, |i: int| SlotModel { word: 0, payload: initial }),
        }
    }

    /// The ring after one push: the write pointer moves on by one, and the
    /// sequence number that it held is written where it lies within the
    /// ring's lifetime.
    pub open spec fn push(self, dat: T) -> Self {
        let seq = self.write_ptr;
        let slot = slot_of(seq, self.capacity);
        let write_ptr = if seq < usize::MAX {
            (seq + 1) as usize
        } else {
            0
        };
        let slots = if in_lifetime(seq, self.capacity) {
            self.slots.update(
                slot,
                self.slots[slot].write(
                    dat,
                    epoch_of(seq, self.capacity) as usize,
                    self.capacity as usize,
                ),
            )
        } else {
            self.slots
        };
        RingModel { capacity: self.capacity, write_ptr, slots }
    }

    /// The ring after the pushes of `values`, first to last.
    pub open spec fn push_all(self, values: Seq<T>) -> Self
        decreases values.len(),
    {
        if values.len() == 0 {
            self
        } else {
            self.push_all(values.drop_last()).push(values.last())
        }
    }

    /// What a read at `seq` returns.
    pub open spec fn read(self, seq: usize) -> Result<T, usize> {
        let slot = self.slots[slot_of(seq, self.capacity)];
        if resident(slot.word, seq, self.capacity) {
            Ok(slot.payload)
        } else {
            Err(slot.word)
        }
    }

    /// What a read of the write that was reserved last returns.
    pub open spec fn try_read_latest(self) -> Option<T> {
        match self.read(newest_of(self.write_ptr)) {
            Ok(dat) => Some(dat),
            Err(_) => None,
        }
    }

    /// What a walk back from `from` finds: the newest write at or below it
    /// that is resident, with its sequence number. The walk ends at the
    /// first sequence number of the ring.
    pub open spec fn read_back(self, from: usize) -> Option<(usize, T)>
        decreases from,
    {
        if from < self.capacity || from == 0 {
            None
        } else {
            match self.read(from) {
                Ok(dat) => Some((from, dat)),
                Err(_) => self.read_back((from - 1) as usize),
            }
        }
    }

    /// What `read_latest` returns: what the walk back from the write that
    /// was reserved last finds, and `fallback`, the default payload, where
    /// it finds nothing.
    pub open spec fn read_latest(self, fallback: T) -> T {
        match self.read_back(newest_of(self.write_ptr)) {
            Some((_, dat)) => dat,
            None => fallback,
        }
    }

    /// What a cursor at `pos` gets from `next` in the attempt that has
    /// `margin` and in those after it, and where it stands then.
    pub open spec fn next_from(self, pos: usize, margin: int) -> (Option<T>, usize)
        decreases
                (if 1 <= margin < self.capacity {
                    self.capacity - margin
                } else {
                    0
                }),
    {
        if 1 <= margin < self.capacity {
            match attempt_of(self.read(pos), epoch_of(pos, self.capacity)) {
                Attempt::Hand(dat) => (Some(dat), (pos + 1) as usize),
                Attempt::Nothing => (None, pos),
                Attempt::CatchUp => {
                    let landed = landing_of(self.write_ptr, self.capacity, margin) as usize;
                    match margin_after(margin, self.capacity) {
                        Some(wider) => self.next_from(landed, wider),
                        None => (None, landed),
                    }
                },
            }
        } else {
            (None, pos)
        }
    }

    /// What a cursor at `pos` gets from `next`, and where it stands then.
    pub open spec fn next(self, pos: usize) -> (Option<T>, usize) {
        self.next_from(pos, FIRST_MARGIN as int)
    }

    /// Where a cursor stands after `catch_up` with `margin`.
    pub open spec fn catch_up(self, margin: int) -> usize {
        landing_of(self.write_ptr, self.capacity, margin) as usize
    }

    /// What `next_blocking` returns to a cursor at `pos` that has `polls`
    /// polls left, and where the cursor stands then: the first value that
    /// `next` gives, and `fallback`, the default payload, where the polls
    /// run out.
    pub open spec fn next_blocking_from(self, pos: usize, fallback: T, polls: nat) -> (T, usize)
        decreases polls,
    {
        if polls == 0 {
            (fallback, pos)
        } else {
            match self.next(pos) {
                (Some(dat), at) => (dat, at),
                (None, at) => self.next_blocking_from(at, fallback, (polls - 1) as nat),
            }
        }
    }

    /// What `next_blocking` returns to a cursor at `pos`, and where the
    /// cursor stands then.
    pub open spec fn next_blocking(self, pos: usize, fallback: T) -> (T, usize) {
        self.next_blocking_from(pos, fallback, SPIN_LIMIT as nat)
    }

    /// What `count` calls of `next` hand out to a cursor that starts at
    /// `pos`, up to the first call that gives nothing, and where the cursor
    /// stands then.
    pub open spec fn next_run(self, pos: usize, count: nat) -> (Seq<T>, usize)
        decreases count,
    {
        if count == 0 {
            (Seq::empty(), pos)
        } else {
            match self.next(pos) {
                (Some(dat), at) => {
                    let (rest, end) = self.next_run(at, (count - 1) as nat);
                    (seq![dat] + rest, end)
                },
                (None, at) => (Seq::empty(), at),
            }
        }
    }

    /// The ring holds what `values.len()` pushes leave: each slot that was
    /// written holds the one write of its own among the last `capacity`
    /// reservations, and every other slot is as it was made.
    pub open spec fn holds(self, capacity: int, initial: T, values: Seq<T>) -> bool {
        &&& self.capacity == capacity
        &&& self.write_ptr == capacity + values.len()
        &&& self.slots.len() == capacity
        &&& forall|i: int|
            0 <= i < capacity ==> {
                let slot = #[trigger] self.slots[i];
                if i < values.len() {
                    &&& slot.word as int % capacity == 0
                    &&& capacity <= slot.word
                    &&& values.len() <= slot.word + i < capacity + values.len()
                    &&& slot.payload == values[slot.word + i - capacity]
                } else {
                    slot == SlotModel { word: 0, payload: initial }
                }
            }
    }
}

proof fn lemma_multiples_apart(x: int, y: int, cap: int)
    requires
        cap > 0,
        x % cap == 0,
        y % cap == 0,
        -cap < x - y < cap,
    ensures
        x == y,
{
    lemma_fundamental_div_mod(x, cap);
    lemma_fundamental_div_mod(y, cap);
    let a = x / cap;
    let b = y / cap;
    assert(a == b) by (nonlinear_arith)
        requires
            cap > 0,
            -cap < cap * a - cap * b < cap,
    ;
}

proof fn lemma_multiple_plus(word: int, i: int, cap: int)
    requires
        cap > 0,
        word % cap == 0,
        0 <= i < cap,
    ensures
        (word + i) % cap == i,
{
    lemma_fundamental_div_mod(word, cap);
    lemma_fundamental_div_mod_converse(word + i, cap, word / cap, i);
}

proof fn lemma_shift_by_capacity(x: int, cap: int)
    requires
        cap > 0,
    ensures
        (x + cap) % cap == x % cap,
        (x + cap) - (x + cap) % cap == x - x % cap + cap,
{
    lemma_fundamental_div_mod(x, cap);
    assert(x + cap == (x / cap + 1) * cap + x % cap) by (nonlinear_arith)
        requires
            x == cap * (x / cap) + x % cap,
    ;
    lemma_fundamental_div_mod_converse(x + cap, cap, x / cap + 1, x % cap);
}

/// A push keeps the ring in step with the values pushed.
proof fn lemma_push_holds<T>(ring: RingModel<T>, capacity: int, initial: T, values: Seq<T>, dat: T)
    requires
        valid_capacity(capacity),
        ring.holds(capacity, initial, values),
        capacity + values.len() < SENTINEL_MASK,
    ensures
        ring.push(dat).holds(capacity, initial, values.push(dat)),
{
    reveal(is_pow2);
    let n = values.len() as int;
    let seq = ring.write_ptr;
    let slot = slot_of(seq, capacity);
    let epoch = epoch_of(seq, capacity);
    let after = ring.push(dat);
    let pushed = values.push(dat);
    lemma_sequence_splits(seq, capacity);
    lemma_live_epoch(seq, capacity);
    let before = ring.slots[slot];
    if slot < n {
        lemma_shift_by_capacity(epoch - capacity, capacity);
        lemma_multiples_apart(epoch - capacity, before.word as int, capacity);
    } else {
        lemma_fundamental_div_mod_converse(seq as int, capacity, 1, n);
    }
    assert forall|i: int| 0 <= i < capacity implies ({
        let s = #[trigger] after.slots[i];
        if i < pushed.len() {
            &&& s.word as int % capacity == 0
            &&& capacity <= s.word
            &&& pushed.len() <= s.word + i < capacity + pushed.len()
            &&& s.payload == pushed[s.word + i - capacity]
        } else {
            s == SlotModel { word: 0, payload: initial }
        }
    }) by {
        let old_slot = ring.slots[i];
        if i != slot && i < n + 1 {
            if i == n {
                lemma_fundamental_div_mod_converse(seq as int, capacity, 1, n);
            }
            if old_slot.word + i == n {
                lemma_multiple_plus(old_slot.word as int, i, capacity);
                lemma_shift_by_capacity(n, capacity);
            }
        }
    }
}

/// After any pushes within its lifetime, a ring that was made fresh holds
/// what those pushes leave.
pub proof fn lemma_pushes_hold<T>(capacity: int, initial: T, values: Seq<T>)
    requires
        valid_capacity(capacity),
        capacity + values.len() <= SENTINEL_MASK,
    ensures
        RingModel::fresh(capacity, initial).push_all(values).holds(capacity, initial, values),
    decreases values.len(),
{
    reveal(is_pow2);
    if values.len() > 0 {
        lemma_pushes_hold(capacity, initial, values.drop_last());
        lemma_push_holds(
            RingModel::fresh(capacity, initial).push_all(values.drop_last()),
            capacity,
            initial,
            values.drop_last(),
            values.last(),
        );
    }
}

/// A slot goes from a completed epoch through the claimed state to the
/// next completed epoch: the claim sets the sentinel beside the new epoch
/// and leaves the payload, publishing clears the sentinel, and a slot that
/// does not hold the epoch before stays as it is. The epoch of a slot
/// never goes down.
pub proof fn lemma_slot_write<T>(slot: SlotModel<T>, dat: T, new_epoch: usize, step: usize)
    requires
        step <= new_epoch < SENTINEL_MASK,
    ensures
        slot.word == new_epoch - step ==> {
            &&& slot.claim(new_epoch, step) is Some
            &&& in_progress(slot.claim(new_epoch, step)->0.word)
            &&& epoch_bits(slot.claim(new_epoch, step)->0.word) == new_epoch
            &&& slot.claim(new_epoch, step)->0.payload == slot.payload
            &&& slot.write(dat, new_epoch, step) == SlotModel { word: new_epoch, payload: dat }
        },
        slot.word != new_epoch - step ==> slot.write(dat, new_epoch, step) == slot,
        epoch_bits(slot.word) <= epoch_bits(slot.write(dat, new_epoch, step).word),
{
}

/// Reservations are consecutive: pushes of `values` to a fresh ring leave
/// the write pointer at `capacity + values.len()`, so the push of
/// `values[k]` reserved the sequence number `capacity + k`.
pub proof fn lemma_reservations_are_consecutive<T>(capacity: int, initial: T, values: Seq<T>)
    requires
        valid_capacity(capacity),
        capacity + values.len() <= SENTINEL_MASK,
    ensures
        RingModel::fresh(capacity, initial).push_all(values).write_ptr == capacity + values.len(),
{
    lemma_pushes_hold(capacity, initial, values);
}

/// A read succeeds at exactly the last `capacity` sequence numbers that
/// were reserved, and gives the value that was pushed there: what was
/// pushed can be read until `capacity` further pushes, and nothing is read
/// that was not pushed. Below them a cursor finds that it was lapped,
/// above them that there is nothing yet.
pub proof fn lemma_read_after_pushes<T>(capacity: int, initial: T, values: Seq<T>, seq: usize)
    requires
        valid_capacity(capacity),
        capacity + values.len() <= SENTINEL_MASK,
    ensures
        ({
            let ring = RingModel::fresh(capacity, initial).push_all(values);
            &&& ring.read(seq) is Ok <==> capacity <= seq && values.len() <= seq < capacity
                + values.len()
            &&& ring.read(seq) matches Ok(dat) ==> dat == values[seq - capacity]
            &&& ring.read(seq) matches Err(word) ==> capacity <= seq ==> miss_of(
                word,
                epoch_of(seq, capacity),
            ) == (if seq < values.len() {
                Miss::Lapped
            } else {
                Miss::Idle
            })
        }),
{
    reveal(is_pow2);
    let ring = RingModel::fresh(capacity, initial).push_all(values);
    let n = values.len() as int;
    lemma_pushes_hold(capacity, initial, values);
    lemma_sequence_splits(seq, capacity);
    let i = slot_of(seq, capacity);
    let expected = epoch_of(seq, capacity);
    let slot = ring.slots[i];
    if capacity <= seq {
        lemma_live_epoch(seq, capacity);
        if n <= seq < capacity + n {
            if n < capacity {
                lemma_fundamental_div_mod_converse(seq as int, capacity, 1, seq - capacity);
            }
            lemma_multiples_apart(slot.word as int, expected, capacity);
        } else if seq < n {
            assert(i < n);
        } else {
            assert(ring.read(seq) == Err::<T, usize>(slot.word));
        }
    }
}

/// The write that was reserved last is the last value pushed; on a ring
/// that nothing was pushed to there is none.
pub proof fn lemma_latest_after_pushes<T>(capacity: int, initial: T, values: Seq<T>)
    requires
        valid_capacity(capacity),
        capacity + values.len() <= SENTINEL_MASK,
    ensures
        RingModel::fresh(capacity, initial).push_all(values).try_read_latest() == (if values.len()
            > 0 {
            Some(values.last())
        } else {
            None
        }),
{
    reveal(is_pow2);
    let ring = RingModel::fresh(capacity, initial).push_all(values);
    lemma_pushes_hold(capacity, initial, values);
    lemma_read_after_pushes(capacity, initial, values, (ring.write_ptr - 1) as usize);
}

/// A walk back finds the newest value that was pushed, from wherever it
/// starts at or above the oldest write that the ring holds; from below that
/// write, and on a ring that nothing was pushed to, it finds nothing.
pub proof fn lemma_read_back_after_pushes<T>(
    capacity: int,
    initial: T,
    values: Seq<T>,
    from: usize,
)
    requires
        valid_capacity(capacity),
        capacity + values.len() <= SENTINEL_MASK,
    ensures
        RingModel::fresh(capacity, initial).push_all(values).read_back(from) == (if capacity
            <= from && 0 < values.len() <= from {
            let seq = if from < capacity + values.len() {
                from
            } else {
                (capacity + values.len() - 1) as usize
            };
            Some((seq, values[seq - capacity]))
        } else {
            None
        }),
    decreases from,
{
    reveal(is_pow2);
    lemma_pushes_hold(capacity, initial, values);
    lemma_read_after_pushes(capacity, initial, values, from);
    if from >= capacity {
        lemma_read_back_after_pushes(capacity, initial, values, (from - 1) as usize);
    }
}

/// `read_latest` gives the last value pushed, however often it is asked
/// while nothing is pushed; on a ring that nothing was pushed to it gives
/// the default payload.
pub proof fn lemma_read_latest_after_pushes<T>(
    capacity: int,
    initial: T,
    values: Seq<T>,
    fallback: T,
)
    requires
        valid_capacity(capacity),
        capacity + values.len() <= SENTINEL_MASK,
    ensures
        RingModel::fresh(capacity, initial).push_all(values).read_latest(fallback) == (if values.len()
            > 0 {
            values.last()
        } else {
            fallback
        }),
{
    reveal(is_pow2);
    let ring = RingModel::fresh(capacity, initial).push_all(values);
    lemma_pushes_hold(capacity, initial, values);
    lemma_read_back_after_pushes(capacity, initial, values, newest_of(ring.write_ptr));
}

/// A cursor that has not been lapped gets the value at its position and
/// moves on by one.
pub proof fn lemma_next_in_step<T>(capacity: int, initial: T, values: Seq<T>, pos: usize)
    requires
        valid_capacity(capacity),
        capacity >= 2,
        capacity + values.len() <= SENTINEL_MASK,
        capacity <= pos,
        values.len() <= pos < capacity + values.len(),
    ensures
        RingModel::fresh(capacity, initial).push_all(values).next(pos) == (
            Some(values[pos - capacity]),
            (pos + 1) as usize,
        ),
{
    lemma_pushes_hold(capacity, initial, values);
    lemma_read_after_pushes(capacity, initial, values, pos);
}

/// A cursor that has read everything gets nothing and stays.
pub proof fn lemma_next_at_head<T>(capacity: int, initial: T, values: Seq<T>, pos: usize)
    requires
        valid_capacity(capacity),
        capacity + values.len() <= SENTINEL_MASK,
        capacity + values.len() <= pos,
    ensures
        RingModel::fresh(capacity, initial).push_all(values).next(pos) == (None::<T>, pos),
{
    lemma_pushes_hold(capacity, initial, values);
    lemma_read_after_pushes(capacity, initial, values, pos);
}

/// A cursor that the producers have lapped lands one slot above the oldest
/// sequence number that the ring holds. On a ring of more than two slots
/// it gets the value there and moves on; on one of two slots the margin is
/// used up, and the value comes with the next call.
pub proof fn lemma_next_after_overrun<T>(capacity: int, initial: T, values: Seq<T>, pos: usize)
    requires
        valid_capacity(capacity),
        capacity >= 2,
        capacity + values.len() <= SENTINEL_MASK,
        capacity <= pos < values.len(),
    ensures
        RingModel::fresh(capacity, initial).push_all(values).next(pos) == (if capacity > 2 {
            (Some(values[values.len() + 1 - capacity]), (values.len() + 2) as usize)
        } else {
            (None::<T>, (values.len() + 1) as usize)
        }),
{
    let ring = RingModel::fresh(capacity, initial).push_all(values);
    lemma_pushes_hold(capacity, initial, values);
    lemma_read_after_pushes(capacity, initial, values, pos);
    let landing = landing_of(ring.write_ptr, capacity, 1);
    lemma_read_after_pushes(capacity, initial, values, landing as usize);
    if capacity > 2 {
        assert(ring.next_from(landing as usize, 2) == (
            Some(values[values.len() + 1 - capacity]),
            (values.len() + 2) as usize,
        ));
    }
}

/// A cursor that has not been lapped gets, call after call, the values in
/// the order in which they were pushed, none left out and none twice.
pub proof fn lemma_next_run_in_step<T>(
    capacity: int,
    initial: T,
    values: Seq<T>,
    pos: usize,
    count: nat,
)
    requires
        valid_capacity(capacity),
        capacity >= 2,
        capacity + values.len() <= SENTINEL_MASK,
        capacity <= pos,
        values.len() <= pos,
        pos + count <= capacity + values.len(),
    ensures
        RingModel::fresh(capacity, initial).push_all(values).next_run(pos, count) == (
            values.subrange(pos - capacity, pos - capacity + count),
            (pos + count) as usize,
        ),
    decreases count,
{
    if count > 0 {
        lemma_next_in_step(capacity, initial, values, pos);
        lemma_next_run_in_step(capacity, initial, values, (pos + 1) as usize, (count - 1) as nat);
    }
}

/// After a catch-up that lands at or above the first write, `next` gives
/// the value `margin` above the oldest that the ring holds.
pub proof fn lemma_next_after_catch_up<T>(
    capacity: int,
    initial: T,
    values: Seq<T>,
    margin: int,
)
    requires
        valid_capacity(capacity),
        capacity + values.len() <= SENTINEL_MASK,
        1 <= margin < capacity <= values.len() + margin,
    ensures
        ({
            let ring = RingModel::fresh(capacity, initial).push_all(values);
            &&& ring.catch_up(margin) == values.len() + margin
            &&& ring.next(ring.catch_up(margin)) == (
                Some(values[values.len() + margin - capacity]),
                (values.len() + margin + 1) as usize,
            )
        }),
{
    lemma_pushes_hold(capacity, initial, values);
    lemma_next_in_step(capacity, initial, values, (values.len() + margin) as usize);
}

/// `next_blocking` gives a cursor that has something to read the value at
/// its position, or the value at its landing where it was lapped, and
/// leaves it one above that value.
pub proof fn lemma_next_blocking_after_pushes<T>(
    capacity: int,
    initial: T,
    values: Seq<T>,
    pos: usize,
    fallback: T,
)
    requires
        valid_capacity(capacity),
        capacity >= 2,
        capacity + values.len() <= SENTINEL_MASK,
        capacity <= pos < capacity + values.len(),
    ensures
        ({
            let ring = RingModel::fresh(capacity, initial).push_all(values);
            let seq = if values.len() <= pos {
                pos as int
            } else {
                values.len() as int + 1
            };
            ring.next_blocking(pos, fallback) == (values[seq - capacity], (seq + 1) as usize)
        }),
{
    let ring = RingModel::fresh(capacity, initial).push_all(values);
    let polls = SPIN_LIMIT as nat;
    if values.len() <= pos {
        lemma_next_in_step(capacity, initial, values, pos);
    } else {
        lemma_next_after_overrun(capacity, initial, values, pos);
        if capacity == 2 {
            lemma_next_in_step(capacity, initial, values, (values.len() + 1) as usize);
            assert(ring.next_blocking_from(pos, fallback, polls) == ring.next_blocking_from(
                (values.len() + 1) as usize,
                fallback,
                (polls - 1) as nat,
            ));
        }
    }
}

} // verus!
