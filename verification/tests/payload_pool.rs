use hiroz::payload_pool::{count_free, PayloadPool, PoolStats, STUCK_AFTER};
use std::sync::Arc;


#[derive(Default, Debug)]
struct Msg {
    stamp: u64,
}

#[test]
fn a_slot_is_reused_rather_than_reallocated() {
    let mut pool = PayloadPool::new(2, Msg::default);
    let addr = {
        let held = pool.acquire().expect("fresh pool").into_shared();
        Arc::as_ptr(&held) as usize
    };
    let _second = pool.acquire().expect("second slot").into_shared();
    let again = pool.acquire().expect("first slot, returned").into_shared();
    assert_eq!(
        Arc::as_ptr(&again) as usize,
        addr,
        "the slot was reallocated: this pool is not reusing anything"
    );
}

#[test]
fn a_retained_arc_removes_a_slot_and_is_eventually_reported() {
    let mut pool = PayloadPool::new(2, Msg::default);
    let _retained = pool.acquire().expect("fresh pool").into_shared();
    assert_eq!(
        pool.stats().available,
        1,
        "the retained slot still counts as available"
    );

    for _ in 0..(STUCK_AFTER + 2) {
        drop(pool.acquire().map(|m| m.into_shared()));
    }
    assert_eq!(
        pool.stats().stuck,
        1,
        "a permanently held slot was never reported as stuck"
    );
}

#[test]
fn exhaustion_returns_none_and_never_allocates() {
    let mut pool = PayloadPool::new(2, Msg::default);
    let _a = pool.acquire().expect("slot 0").into_shared();
    let _b = pool.acquire().expect("slot 1").into_shared();
    assert!(
        pool.acquire().is_none(),
        "the pool handed out a third slot from a capacity of two"
    );
    assert_eq!(pool.stats().exhaustions, 1);
    assert_eq!(pool.stats().available, 0);
    assert_eq!(pool.capacity(), 2, "capacity grew: acquire allocated");
}

#[test]
fn a_weak_reference_is_skipped_rather_than_panicking() {
    let mut pool = PayloadPool::new(1, Msg::default);
    let shared = pool.acquire().expect("fresh pool").into_shared();
    let weak = Arc::downgrade(&shared);
    drop(shared);
    assert_eq!(weak.strong_count(), 1, "only the pool's own Arc remains");
    assert!(
        pool.acquire().is_none(),
        "acquire handed out a slot that still has a Weak pointing at it"
    );
    drop(weak);
    assert!(
        pool.acquire().is_some(),
        "the slot did not return once the Weak was dropped"
    );
}

#[test]
fn writing_through_the_guard_lands_in_the_published_arc() {
    let mut pool = PayloadPool::new(1, Msg::default);
    let mut m = pool.acquire().expect("fresh pool");
    m.get_mut().unwrap().stamp = 4242;
    assert_eq!(m.stamp, 4242, "Deref does not see the write");
    let published = m.into_shared();
    assert_eq!(published.stamp, 4242);
}

#[test]
fn a_returned_slot_becomes_acquirable_again() {
    let mut pool = PayloadPool::new(1, Msg::default);
    let held = pool.acquire().expect("fresh pool").into_shared();
    assert!(pool.acquire().is_none(), "capacity one handed out two");
    drop(held);
    assert!(
        pool.acquire().is_some(),
        "a slot whose receivers all dropped was not returned to the pool"
    );
}

#[test]
fn a_zero_capacity_pool_is_permanently_exhausted_rather_than_panicking() {
    let mut pool = PayloadPool::new(0, Msg::default);
    assert!(pool.acquire().is_none());
    assert_eq!(pool.stats().exhaustions, 1);
}

#[test]
fn the_streaks_follow_what_the_search_found() {
    let mut pool = PayloadPool::new(3, Msg::default);
    assert_eq!(pool.settle(1), Some(1));
    assert_eq!(pool.busy_streak, vec![1, 0, 0]);
    assert_eq!(pool.cursor, 2);
    assert_eq!(pool.settle(2), Some(1));
    assert_eq!(pool.busy_streak, vec![2, 0, 1]);
    assert_eq!(pool.settle(3), None);
    assert_eq!(pool.busy_streak, vec![3, 1, 2]);
    assert_eq!(pool.exhaustions, 1);
    assert_eq!(count_free(&vec![(1, 0), (2, 0), (1, 1)]), 1);
}

#[test]
fn a_new_pool_is_all_available_and_made_once_per_slot() {
    let mut made = 0;
    let pool = PayloadPool::new(3, || {
        made += 1;
        made
    });
    assert_eq!(
        pool.stats(),
        PoolStats { capacity: 3, available: 3, stuck: 0, exhaustions: 0 }
    );
    assert_eq!(*pool.slots[2], 3);
    assert_eq!(made, 3);
}

#[test]
fn a_held_slot_is_stuck_after_so_many_failed_acquires() {
    let mut pool = PayloadPool::new(1, || 0u8);
    let held = pool.acquire().unwrap().into_shared();
    for _ in 0..63 {
        assert!(pool.acquire().is_none());
    }
    assert_eq!(pool.stats().stuck, 0);
    assert!(pool.acquire().is_none());
    assert_eq!(
        pool.stats(),
        PoolStats { capacity: 1, available: 0, stuck: 1, exhaustions: 64 }
    );
    drop(held);
    assert_eq!(pool.stats().available, 1);
}

#[test]
fn a_published_slot_is_unavailable_while_it_is_held() {
    let mut pool = PayloadPool::new(1, || 0u64);
    let mut m = pool.acquire().unwrap();
    *m.get_mut().unwrap() = 4242;
    let r = m.into_shared();
    assert_eq!(*r, 4242);
    assert_eq!(Arc::strong_count(&r), 2);
    assert_eq!(pool.stats().available, 0);
    drop(r);
    assert_eq!(pool.stats().available, 1);
}
