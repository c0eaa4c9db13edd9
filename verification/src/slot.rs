//! One element of a ring: a payload and the epoch word that versions it.
//!
//! The epoch word is an atomic. A writer claims the slot with a
//! compare-exchange that is sequentially consistent where it succeeds, and
//! publishes with a release store; a reader takes the word with an acquire
//! load before and after it takes the payload. The payload lies behind a
//! lock of its own, which a writer holds only while it stores and a reader
//! only while it copies.

use std::sync::atomic::AtomicUsize;
use std::sync::atomic::Ordering;
use vstd::prelude::*;
use vstd::rwlock::{RwLock, RwLockPredicate};
use crate::sequence::{claim_word, completed_epoch, epoch_bits, SENTINEL_MASK};

verus! {

/// How often an operation that waits for another thread polls before it
/// gives up: as often as a machine word counts.
pub const SPIN_LIMIT: usize = usize::MAX;

/// The payload lock's predicate: a slot may hold any value of its type.
struct AnyPayload;

impl<T> RwLockPredicate<T> for AnyPayload {
    open spec fn inv(self, v: T) -> bool {
        true
    }
}

/// What a writer that failed to claim a slot learns from the word it saw.
#[derive(Clone, Copy, PartialEq, Eq, Debug, Structural)]
pub enum Claim {
    /// The slot has not reached the epoch to advance from: try again.
    Retry,
    /// The slot is past that epoch: this claim can never succeed.
    Overtaken,
}

/// Judges the word that a failed claim observed against the epoch that the
/// claim was to advance from.
pub fn judge_claim(observed: usize, old_epoch: usize) -> (c: Claim)
    ensures
        c == (if epoch_bits(observed) <= old_epoch { Claim::Retry } else { Claim::Overtaken }),
{
    if completed_epoch(observed) <= old_epoch {
        Claim::Retry
    } else {
        Claim::Overtaken
    }
}

/// A slot. Epoch 0 is the slot as it was made; the first write has the
/// ring's capacity as its epoch.
pub struct Cell<T: Copy> {
    data: RwLock<T, AnyPayload>,
    epoch: AtomicUsize,
}

impl<T: Copy + Default> Default for Cell<T> {
    /// A slot that holds the default payload and has never been written.
    fn default() -> Self {
        Cell { data: RwLock::new(T::default(), Ghost(AnyPayload)), epoch: AtomicUsize::new(0) }
    }
}

impl<T: Copy> Cell<T> {
    /// Writes `dat` as the slot's generation `new_epoch`, which follows the
    /// generation `new_epoch - epoch_increment`: claims the slot by setting
    /// the sentinel beside the new epoch, stores the payload, and publishes
    /// the new epoch with the sentinel cleared.
    ///
    /// The claim waits for the generation before to be published. It is
    /// given up, and nothing is written, once the slot is seen past that
    /// generation, and after `SPIN_LIMIT` attempts.
    pub fn write(&self, dat: T, new_epoch: usize, epoch_increment: usize)
        requires
            epoch_increment <= new_epoch < SENTINEL_MASK,
    {
        let old_epoch = new_epoch - epoch_increment;
        let claim = claim_word(new_epoch);
        let mut spins: usize = SPIN_LIMIT;
        let mut claimed = false;
        while !claimed && spins > 0
            decreases spins,
        {
            match self.epoch.compare_exchange_weak(
                old_epoch,
                claim,
                Ordering::SeqCst,
                Ordering::Acquire,
            ) {
                Ok(_) => {
                    claimed = true;
                },
                Err(x) => {
                    if judge_claim(x, old_epoch) == Claim::Overtaken {
                        return ;
                    }
                },
            }
            spins -= 1;
        }
        if claimed {
            let (_, handle) = self.data.acquire_write();
            handle.release_write(dat);
            self.epoch.store(new_epoch, Ordering::Release);
        }
    }

    /// The payload as it is now. Whether it belongs to a given write is
    /// for the caller to tell, from the epoch word before and after.
    pub fn read(&self) -> T {
        let handle = self.data.acquire_read();
        let dat = *handle.borrow();
        handle.release_read();
        dat
    }

    /// The epoch word as it is now, sentinel included.
    pub fn epoch(&self) -> usize {
        self.epoch.load(Ordering::Acquire)
    }
}

} // verus!
