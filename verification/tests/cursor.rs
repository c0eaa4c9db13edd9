use broadcast_ring::cursor::{
    attempt, judge_miss, landing, next_margin, Attempt, Miss, QueueClient, FIRST_MARGIN,
};
use broadcast_ring::sequence::SENTINEL_MASK;

#[test]
fn judge_miss_idle_and_lapped() {
    // nothing written there yet
    assert_eq!(judge_miss(0, 128), Miss::Idle);
    assert_eq!(judge_miss(128, 256), Miss::Idle);
    assert_eq!(judge_miss(128, 128), Miss::Idle);
    // a write is under way, whatever its epoch
    assert_eq!(judge_miss(128 | SENTINEL_MASK, 128), Miss::Idle);
    assert_eq!(judge_miss(256 | SENTINEL_MASK, 128), Miss::Idle);
    assert_eq!(judge_miss(usize::MAX, 0), Miss::Idle);
    // a later generation is complete
    assert_eq!(judge_miss(256, 128), Miss::Lapped);
    assert_eq!(judge_miss(129, 128), Miss::Lapped);
    assert_eq!(judge_miss(SENTINEL_MASK - 1, 0), Miss::Lapped);
}

#[test]
fn landing_is_margin_above_the_oldest() {
    assert_eq!(landing(690, 128, 1), 563);
    assert_eq!(landing(690, 128, 2), 564);
    assert_eq!(landing(690, 128, 64), 626);
    assert_eq!(landing(690, 128, 127), 689);
    assert_eq!(landing(128, 128, 1), 1);
    assert_eq!(landing(2, 2, 1), 1);
}

#[test]
fn landing_wraps_below_zero() {
    assert_eq!(landing(0, 128, 1), usize::MAX - 126);
    assert_eq!(landing(100, 128, 27), usize::MAX);
    assert_eq!(landing(100, 128, 28), 0);
    assert_eq!(landing(127, 128, 127), 126);
}

#[test]
fn new_queue_rounds_capacity_up() {
    assert_eq!(QueueClient::<u32>::new_queue(1).size(), 1);
    assert_eq!(QueueClient::<u32>::new_queue(5).size(), 8);
    assert_eq!(QueueClient::<u32>::new_queue(100).size(), 128);
    assert_eq!(QueueClient::<u32>::new_queue(1000).size(), 1024);
}

#[test]
fn next_on_fresh_ring_is_none() {
    let mut q: QueueClient<u32> = QueueClient::new_queue(100);
    assert_eq!(q.next(), None);
    assert_eq!(q.next(), None);
    q.push(3);
    assert_eq!(q.next(), Some(3));
    assert_eq!(q.next(), None);
}

#[test]
fn single_cursor_reads_in_push_order() {
    let mut q: QueueClient<u32> = QueueClient::new_queue(100);
    for v in 1..=20 {
        q.push(v);
    }
    for v in 1..=20 {
        assert_eq!(q.next_blocking(), v);
    }
    for v in 21..=50 {
        q.push(v);
    }
    for v in 21..=40 {
        assert_eq!(q.next_blocking(), v);
    }
    for v in 51..=90 {
        q.push(v);
    }
    for v in 41..=90 {
        assert_eq!(q.next_blocking(), v);
    }
    assert_eq!(q.next(), None);
    q.push(91);
    assert_eq!(q.next_blocking(), 91);
}

#[test]
fn two_cursors_read_the_same_stream() {
    let mut q1: QueueClient<u32> = QueueClient::new_queue(128);
    let mut q2 = q1.clone();
    for v in 1..=20 {
        q1.push(v);
    }
    for v in 1..=20 {
        assert_eq!(q1.next(), Some(v));
    }
    for v in 1..=20 {
        assert_eq!(q2.next(), Some(v));
    }
    assert_eq!(q1.next(), None);
    assert_eq!(q2.next(), None);
}

#[test]
fn clone_starts_where_its_source_stands() {
    let mut q1: QueueClient<u32> = QueueClient::new_queue(16);
    for v in 1..=5 {
        q1.push(v);
    }
    assert_eq!(q1.next(), Some(1));
    assert_eq!(q1.next(), Some(2));
    let mut q2 = q1.clone();
    assert_eq!(q2.size(), 16);
    assert_eq!(q2.next(), Some(3));
    assert_eq!(q1.next(), Some(3));
    q2.push(6);
    assert_eq!(q1.latest(), 6);
}

#[test]
fn lapped_cursor_fast_forwards() {
    let mut q: QueueClient<u32> = QueueClient::new_queue(128);
    for v in 1..=562 {
        q.push(v);
    }
    // the write pointer is 690; a catch-up with margin 1 lands at 563,
    // which holds the 436th value
    assert_eq!(q.next(), Some(436));
    assert_eq!(q.next(), Some(437));
    assert_eq!(q.latest(), 562);
    for v in 438..=562 {
        assert_eq!(q.next(), Some(v));
    }
    assert_eq!(q.next(), None);
}

#[test]
fn cursor_a_whole_ring_behind_is_not_lapped() {
    let mut q: QueueClient<u32> = QueueClient::new_queue(8);
    for v in 1..=8 {
        q.push(v);
    }
    for v in 1..=8 {
        assert_eq!(q.next(), Some(v));
    }
    for v in 9..=17 {
        q.push(v);
    }
    // nine behind: the oldest is gone
    assert_eq!(q.next(), Some(11));
}

#[test]
fn lapped_cursor_on_two_slots_catches_up_then_reads() {
    let mut q: QueueClient<u32> = QueueClient::new_queue(2);
    for v in 1..=10 {
        q.push(v);
    }
    // the margin is used up by the catch-up; the next call reads
    assert_eq!(q.next(), None);
    assert_eq!(q.next(), Some(10));
    assert_eq!(q.next(), None);
}

#[test]
fn cursor_on_one_slot_never_reads() {
    let mut q: QueueClient<u32> = QueueClient::new_queue(1);
    assert_eq!(q.next(), None);
    q.push(1);
    assert_eq!(q.next(), None);
    assert_eq!(q.latest(), 1);
}

#[test]
fn catch_up_lands_margin_above_the_oldest() {
    let mut q: QueueClient<u32> = QueueClient::new_queue(8);
    for v in 1..=20 {
        q.push(v);
    }
    // the write pointer is 28, the oldest sequence number held is 20
    q.catch_up(3);
    assert_eq!(q.next(), Some(16));
    q.catch_up(7);
    assert_eq!(q.next(), Some(20));
    assert_eq!(q.next(), None);
    q.catch_up(1);
    assert_eq!(q.next(), Some(14));
}

#[test]
fn latest_is_the_last_push_and_does_not_move_the_cursor() {
    let mut q: QueueClient<u32> = QueueClient::new_queue(100);
    for v in 1..=30 {
        q.push(v);
    }
    assert_eq!(q.latest(), 30);
    assert_eq!(q.latest(), 30);
    assert_eq!(q.next(), Some(1));
}

fn must_be_send<S: Send>() {}

fn must_be_sync<S: Sync>() {}

#[test]
fn cursor_and_ring_can_be_shared_between_threads() {
    must_be_send::<QueueClient<u32>>();
    must_be_sync::<QueueClient<u32>>();
    must_be_send::<broadcast_ring::ring::Queue<u64>>();
    must_be_sync::<broadcast_ring::ring::Queue<u64>>();
    must_be_sync::<broadcast_ring::slot::Cell<(u32, u32)>>();
}

#[test]
fn attempt_hands_out_what_the_read_gave() {
    assert_eq!(attempt(Ok::<u32, usize>(7), 128), Attempt::Hand(7));
    assert_eq!(attempt(Ok::<u32, usize>(0), 0), Attempt::Hand(0));
}

#[test]
fn attempt_gives_nothing_where_the_write_is_not_there_yet() {
    assert_eq!(attempt(Err::<u32, usize>(0), 128), Attempt::Nothing);
    assert_eq!(attempt(Err::<u32, usize>(128), 256), Attempt::Nothing);
    assert_eq!(attempt(Err::<u32, usize>(128), 128), Attempt::Nothing);
    assert_eq!(attempt(Err::<u32, usize>(256 | SENTINEL_MASK), 128), Attempt::Nothing);
    assert_eq!(attempt(Err::<u32, usize>(128 | SENTINEL_MASK), 128), Attempt::Nothing);
}

#[test]
fn attempt_catches_up_where_the_slot_is_a_generation_on() {
    assert_eq!(attempt(Err::<u32, usize>(256), 128), Attempt::CatchUp);
    assert_eq!(attempt(Err::<u32, usize>(640), 128), Attempt::CatchUp);
    assert_eq!(attempt(Err::<u32, usize>(4), 0), Attempt::CatchUp);
}

#[test]
fn margin_doubles_until_it_reaches_the_capacity() {
    assert_eq!(FIRST_MARGIN, 1);
    assert_eq!(next_margin(1, 128), Some(2));
    assert_eq!(next_margin(2, 128), Some(4));
    assert_eq!(next_margin(32, 128), Some(64));
    assert_eq!(next_margin(63, 128), Some(126));
    assert_eq!(next_margin(64, 128), None);
    assert_eq!(next_margin(100, 128), None);
    assert_eq!(next_margin(1, 2), None);
    assert_eq!(next_margin(1, 3), Some(2));
    assert_eq!(next_margin(1, 4), Some(2));
    assert_eq!(next_margin(2, 4), None);
    assert_eq!(next_margin(usize::MAX - 1, usize::MAX), None);
}

#[test]
fn two_slots_three_pushes() {
    let mut c: QueueClient<u32> = QueueClient::new_queue(2);
    c.push(1);
    c.push(2);
    c.push(3);
    // the catch-up lands at sequence number 4 and uses the margin up
    assert_eq!(c.next(), None);
    assert_eq!(c.next(), Some(3));
    assert_eq!(c.next(), None);
}

#[test]
fn four_slots_six_pushes() {
    let mut c: QueueClient<u32> = QueueClient::new_queue(4);
    for v in 1..=6u32 {
        c.push(v);
    }
    assert_eq!(c.next(), Some(4));
    assert_eq!(c.next(), Some(5));
    assert_eq!(c.next(), Some(6));
    assert_eq!(c.next(), None);
}

#[test]
fn catch_up_by_two_on_four_slots() {
    let mut c: QueueClient<u32> = QueueClient::new_queue(4);
    for v in 1..=6u32 {
        c.push(v);
    }
    c.catch_up(2);
    assert_eq!(c.next(), Some(5));
    assert_eq!(c.next(), Some(6));
    assert_eq!(c.next(), None);
}

#[test]
fn pushes_up_to_the_capacity_come_out_in_order() {
    for k in 1..=8u32 {
        let mut c: QueueClient<u32> = QueueClient::new_queue(8);
        for v in 1..=k {
            c.push(v * 10);
        }
        for v in 1..=k {
            assert_eq!(c.next(), Some(v * 10));
        }
        assert_eq!(c.next(), None);
    }
}

#[test]
fn next_blocking_on_a_clone_sees_the_whole_stream() {
    let mut q1: QueueClient<u32> = QueueClient::new_queue(100);
    let mut q2 = q1.clone();
    for v in 1..=20 {
        q1.push(v);
    }
    for v in 1..=20 {
        assert_eq!(q1.next_blocking(), v);
    }
    for v in 1..=20 {
        assert_eq!(q2.next_blocking(), v);
    }
}

#[test]
fn next_blocking_of_a_lapped_cursor_starts_at_the_landing() {
    let mut c: QueueClient<u32> = QueueClient::new_queue(4);
    for v in 1..=6u32 {
        c.push(v);
    }
    assert_eq!(c.next_blocking(), 4);
    assert_eq!(c.next_blocking(), 5);
    let mut d: QueueClient<u32> = QueueClient::new_queue(2);
    for v in 1..=3u32 {
        d.push(v);
    }
    assert_eq!(d.next_blocking(), 3);
}
