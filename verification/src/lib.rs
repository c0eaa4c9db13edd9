//! A bounded broadcast queue on a ring of epoch-stamped slots.
//!
//! Producers append to one stream of writes. Every reader follows that
//! stream with a cursor of its own, and a reader that falls a whole ring
//! behind loses the oldest values and is moved forward. The ring never
//! grows: a write is named by a sequence number, whose low bits pick the
//! slot and whose high bits, the epoch, tell one generation of that slot
//! from the next.
//!
//! - `rounding`: the capacity of a ring, a power of two.
//! - `sequence`: sequence numbers, epochs and the sentinel bit.
//! - `slot`: one slot and the protocol of a write to it.
//! - `ring`: the slots and the write pointer; `push` and the reads.
//! - `cursor`: a reader's position; `next`, `catch_up`, `latest`.
//! - `model`: the ring while no two operations overlap, and its laws.
//! - `sync`: the return codes of the mutex and notifier primitives.

pub mod cursor;
pub mod model;
pub mod ring;
pub mod rounding;
pub mod sequence;
pub mod slot;
pub mod sync;

pub use cursor::QueueClient;
pub use ring::Queue;
pub use slot::Cell;
