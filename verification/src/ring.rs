//! The ring: a fixed array of slots and the pointer to the next write.

use std::sync::atomic::AtomicUsize;
use std::sync::atomic::Ordering;
use vstd::prelude::*;
use crate::rounding::{least_power_of_two_from, round_up_to_power_of_two, MAX_CAPACITY};
use crate::sequence::{
    epoch_of, has_lifetime, in_lifetime, lemma_live_epoch, lemma_mask_splits,
    lemma_sequence_splits, newest_reserved, resident, slot_of, valid_capacity, within_lifetime,
};
use crate::slot::{Cell, SPIN_LIMIT};

verus! {

/// A ring of slots that any number of producers and readers share.
pub struct Queue<T: Copy> {
    data: Vec<Cell<T>>,
    write_ptr: AtomicUsize,
    idx_mask: usize,
}

impl<T: Copy> Queue<T> {
    #[verifier::type_invariant]
    spec fn wf(&self) -> bool {
        &&& valid_capacity(self.idx_mask + 1)
        &&& self.data@.len() == self.idx_mask + 1
    }

    /// The number of slots.
    pub closed spec fn capacity(&self) -> int {
        self.idx_mask + 1
    }
}

impl<T: Default + Copy> Queue<T> {
    /// A ring of the least power of two of slots that holds `size` of them.
    /// Every slot holds the default payload at epoch 0, and the first write
    /// will have the capacity as its sequence number.
    pub fn new(size: usize) -> (q: Self)
        requires
            1 <= size <= MAX_CAPACITY,
        ensures
            least_power_of_two_from(q.capacity(), size as int),
    {
        let size = round_up_to_power_of_two(size);
        let mut data: Vec<Cell<T>> = Vec::with_capacity(size);
        let mut filled: usize = 0;
        while filled < size
            invariant
                filled <= size,
                data@.len() == filled,
            decreases size - filled,
        {
            data.push(Cell::default());
            filled += 1;
        }
        Queue { data, write_ptr: AtomicUsize::new(size), idx_mask: size - 1 }
    }

    /// The number of slots.
    pub fn size(&self) -> (n: usize)
        ensures
            n == self.capacity(),
            valid_capacity(n as int),
    {
        proof {
            use_type_invariant(self);
        }
        self.idx_mask + 1
    }

    /// The epoch of the sequence number `idx`.
    pub fn epoch(&self, idx: usize) -> (e: usize)
        ensures
            e == epoch_of(idx, self.capacity()),
    {
        proof {
            use_type_invariant(self);
            lemma_mask_splits(idx, self.idx_mask);
        }
        idx & (!self.idx_mask)
    }

    /// The slot of the sequence number `idx`.
    pub fn modu(&self, idx: usize) -> (i: usize)
        ensures
            i == slot_of(idx, self.capacity()),
    {
        proof {
            use_type_invariant(self);
            lemma_mask_splits(idx, self.idx_mask);
        }
        idx & self.idx_mask
    }

    /// The sequence number that the next push will reserve, as it is now.
    pub fn next_write_ptr(&self) -> usize {
        self.write_ptr.load(Ordering::Acquire)
    }

    /// Reserves the next sequence number and writes `data` to its slot.
    /// The reservation is tried up to `SPIN_LIMIT` times. A sequence number
    /// outside the ring's lifetime is reserved and not written.
    pub fn push(&self, data: T) {
        let size = self.size();
        let mut old: usize = self.write_ptr.load(Ordering::Relaxed);
        let mut spins: usize = SPIN_LIMIT;
        let mut reserved = false;
        while !reserved && spins > 0
            decreases spins,
        {
            let new = old.wrapping_add(1);
            match self.write_ptr.compare_exchange_weak(
                old,
                new,
                Ordering::SeqCst,
                Ordering::Relaxed,
            ) {
                Ok(_) => {
                    reserved = true;
                },
                Err(x) => {
                    old = x;
                },
            }
            spins -= 1;
        }
        if reserved && within_lifetime(old, size) {
            let slot = self.modu(old);
            let epoch = self.epoch(old);
            proof {
                use_type_invariant(self);
                lemma_sequence_splits(old, self.capacity());
                lemma_live_epoch(old, self.capacity());
            }
            self.data[slot].write(data, epoch, size);
        }
    }

    /// The value of the write that was reserved last, or `None` while that
    /// write is not complete, and on a ring that nothing was pushed to.
    /// A ring without a lifetime holds no write, so there it is `None`.
    pub fn try_read_latest(&self) -> (r: Option<T>)
        ensures
            !has_lifetime(self.capacity()) ==> r is None,
    {
        let idx = newest_reserved(self.next_write_ptr());
        match self.read(idx) {
            Ok(data) => Some(data),
            Err(_) => None,
        }
    }

    /// Walks back from the sequence number `from` to the newest write at or
    /// below it that is resident, and returns its sequence number and its
    /// value. The walk ends at the first sequence number of the ring, so
    /// from below it, and on a ring without a lifetime, it finds nothing.
    pub fn read_back(&self, from: usize) -> (r: Option<(usize, T)>)
        ensures
            r matches Some((seq, _)) ==> self.capacity() <= seq <= from && in_lifetime(
                seq,
                self.capacity(),
            ),
            from < self.capacity() || !has_lifetime(self.capacity()) ==> r is None,
    {
        let size = self.size();
        let mut idx: usize = from;
        while idx >= size
            invariant
                size == self.capacity(),
                size >= 1,
                idx <= from,
            decreases idx,
        {
            match self.read(idx) {
                Ok(data) => {
                    return Some((idx, data));
                },
                Err(_) => {
                    idx -= 1;
                },
            }
        }
        None
    }

    /// Walks back from the write that was reserved last to the newest one
    /// that is resident, and returns its value. Where the walk finds no
    /// write, the default payload is returned, which is what every slot is
    /// made with: so it is on a ring that nothing was pushed to, and on one
    /// without a lifetime.
    pub fn read_latest(&self) -> (r: T)
        ensures
            !has_lifetime(self.capacity()) ==> T::default.ensures((), r),
    {
        match self.read_back(newest_reserved(self.next_write_ptr())) {
            Some((_, data)) => data,
            None => T::default(),
        }
    }

    /// Polls the sequence number `idx` until its write is resident, and
    /// returns its value; `None` after `SPIN_LIMIT` polls without it. A
    /// sequence number outside the ring's lifetime names no write, so for
    /// it there is nothing to wait for, and `None` comes back at once.
    pub fn wait_for(&self, idx: usize) -> (r: Option<T>)
        ensures
            !in_lifetime(idx, self.capacity()) ==> r is None,
    {
        if !within_lifetime(idx, self.size()) {
            return None;
        }
        let mut spins: usize = SPIN_LIMIT;
        while spins > 0
            decreases spins,
        {
            match self.read(idx) {
                Ok(data) => {
                    return Some(data);
                },
                Err(_) => {},
            }
            spins -= 1;
        }
        None
    }

    /// Waits for the write that was reserved last to complete, and returns
    /// its value. Writes that are reserved meanwhile are not looked at. The
    /// write is polled up to `SPIN_LIMIT` times; after that the default
    /// payload is returned. On a ring that nothing was pushed to there is
    /// nothing to wait for, and the default payload comes back at once; so
    /// it does on a ring without a lifetime, which holds no write.
    pub fn read_latest_blocking(&self) -> (r: T)
        ensures
            !has_lifetime(self.capacity()) ==> T::default.ensures((), r),
    {
        match self.wait_for(newest_reserved(self.next_write_ptr())) {
            Some(data) => data,
            None => T::default(),
        }
    }

    /// Whether the epoch word `word`, loaded from the slot of the sequence
    /// number `idx`, shows the write at `idx` to be resident.
    pub fn shows_write(&self, word: usize, idx: usize) -> (b: bool)
        ensures
            b == resident(word, idx, self.capacity()),
    {
        word == self.epoch(idx) && within_lifetime(idx, self.size())
    }

    /// The value written at the sequence number `idx`, or the epoch word
    /// that showed that it is not resident. The word is loaded before the
    /// payload and again after it, and the value is returned only where both
    /// loads show the write; a sequence number outside the ring's lifetime
    /// names no write.
    pub fn read(&self, idx: usize) -> (r: Result<T, usize>)
        ensures
            r is Ok ==> in_lifetime(idx, self.capacity()),
            r matches Err(word) ==> !resident(word, idx, self.capacity()),
    {
        proof {
            use_type_invariant(self);
            lemma_sequence_splits(idx, self.capacity());
        }
        let cell = &self.data[self.modu(idx)];
        let first = cell.epoch();
        if !self.shows_write(first, idx) {
            return Err(first);
        }
        let rr = cell.read();
        let second = cell.epoch();
        if !self.shows_write(second, idx) {
            return Err(second);
        }
        Ok(rr)
    }
}

} // verus!
