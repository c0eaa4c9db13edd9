use broadcast_ring::sequence::SENTINEL_MASK;
use broadcast_ring::slot::{judge_claim, Cell, Claim, SPIN_LIMIT};

#[test]
fn fresh_slot_holds_default_at_epoch_zero() {
    let cell: Cell<u32> = Cell::default();
    assert_eq!(cell.epoch(), 0);
    assert_eq!(cell.read(), 0);
}

#[test]
fn write_publishes_payload_and_epoch() {
    let cell: Cell<u32> = Cell::default();
    cell.write(7, 128, 128);
    assert_eq!(cell.epoch(), 128);
    assert_eq!(cell.read(), 7);
    cell.write(9, 256, 128);
    assert_eq!(cell.epoch(), 256);
    assert_eq!(cell.read(), 9);
}

#[test]
fn published_epoch_has_no_sentinel() {
    let cell: Cell<u64> = Cell::default();
    cell.write(1, 4, 4);
    assert_eq!(cell.epoch() & SENTINEL_MASK, 0);
}

#[test]
fn write_to_overtaken_slot_is_abandoned() {
    let cell: Cell<u32> = Cell::default();
    cell.write(7, 128, 128);
    cell.write(9, 256, 128);
    // the slot is past epoch 0, so a writer of epoch 128 can never claim it
    cell.write(11, 128, 128);
    assert_eq!(cell.epoch(), 256);
    assert_eq!(cell.read(), 9);
}

#[test]
fn write_with_zero_step_rewrites_the_epoch() {
    let cell: Cell<u32> = Cell::default();
    cell.write(5, 0, 0);
    assert_eq!(cell.epoch(), 0);
    assert_eq!(cell.read(), 5);
}

#[test]
fn judge_claim_retry_and_overtaken() {
    assert_eq!(judge_claim(0, 128), Claim::Retry);
    assert_eq!(judge_claim(128, 128), Claim::Retry);
    assert_eq!(judge_claim(128 | SENTINEL_MASK, 128), Claim::Retry);
    assert_eq!(judge_claim(64 | SENTINEL_MASK, 128), Claim::Retry);
    assert_eq!(judge_claim(256, 128), Claim::Overtaken);
    assert_eq!(judge_claim(256 | SENTINEL_MASK, 128), Claim::Overtaken);
    assert_eq!(judge_claim(129, 128), Claim::Overtaken);
}

#[test]
fn spin_limit_is_the_largest_word() {
    assert_eq!(SPIN_LIMIT, usize::MAX);
}
