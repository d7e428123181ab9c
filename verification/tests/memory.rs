use idempotency_kit::{
    Claim, IdempotencyKey, IdempotencyStore, MemoryStore, Span, StoreError, DEFAULT_CAPACITY,
};

fn key(scope: &str, body: &[u8]) -> IdempotencyKey {
    IdempotencyKey::derive(scope, body).unwrap()
}

fn at(millis: u64) -> Span {
    Span::from_millis(millis)
}

#[test]
fn claim_complete_replay_release_lifecycle() {
    let mut store = MemoryStore::new();
    let k = key("orders", b"payload");

    assert!(matches!(
        store.claim(&k, Span::from_secs(60)),
        Ok(Claim::First)
    ));
    // Unfinished claim is held: another caller sees InFlight.
    assert!(matches!(
        store.claim(&k, Span::from_secs(60)),
        Ok(Claim::InFlight)
    ));

    store.complete(&k, b"resp-1".to_vec()).unwrap();
    assert!(
        matches!(store.claim(&k, Span::from_secs(60)), Ok(Claim::Replay(bytes)) if bytes == b"resp-1"),
        "completed claim must replay the recorded response"
    );

    store.release(&k).unwrap();
    assert!(matches!(
        store.claim(&k, Span::from_secs(60)),
        Ok(Claim::First)
    ));
    assert_eq!(store.len(), 1);
}

#[test]
fn ttl_expiry_reclaims_the_claim() {
    let mut store = MemoryStore::new();
    let k = key("orders", b"expiring");

    assert!(matches!(
        store.claim_at(&k, Span::from_millis(80), at(0)),
        Ok(Claim::First)
    ));
    assert!(matches!(
        store.claim_at(&k, Span::from_secs(60), at(0)),
        Ok(Claim::InFlight)
    ));

    // Lazy expiry: still tracked, but claimable again.
    assert_eq!(store.len(), 1);
    assert!(matches!(
        store.claim_at(&k, Span::from_secs(60), at(140)),
        Ok(Claim::First)
    ));
}

#[test]
fn expired_response_window_is_reclaimable() {
    let mut store = MemoryStore::new();
    let k = key("orders", b"short-replay");

    store.claim_at(&k, Span::from_millis(80), at(0)).unwrap();
    store.complete_at(&k, b"stale".to_vec(), at(0));
    assert!(
        matches!(
            store.claim_at(&k, Span::from_secs(60), at(140)),
            Ok(Claim::First)
        ),
        "a lapsed response must not replay"
    );
}

#[test]
fn capacity_fails_closed_with_live_claims() {
    let mut store = MemoryStore::with_capacity(2);
    let a = key("cap", b"a");
    let b = key("cap", b"b");
    let c = key("cap", b"c");

    store.claim(&a, Span::from_secs(60)).unwrap();
    store.claim(&b, Span::from_secs(60)).unwrap();
    assert!(
        matches!(
            store.claim(&c, Span::from_secs(60)),
            Err(StoreError::CapacityExceeded)
        ),
        "at capacity with fresh claims the store must fail closed"
    );

    // The tracked claims are untouched — no silent eviction.
    assert!(matches!(
        store.claim(&a, Span::from_secs(60)),
        Ok(Claim::InFlight)
    ));
    assert!(matches!(
        store.claim(&b, Span::from_secs(60)),
        Ok(Claim::InFlight)
    ));

    // Release frees a slot for the third key.
    store.release(&a).unwrap();
    assert!(matches!(
        store.claim(&c, Span::from_secs(60)),
        Ok(Claim::First)
    ));
}

#[test]
fn expired_slots_are_swept_when_at_capacity() {
    let mut store = MemoryStore::with_capacity(1);
    let a = key("sweep", b"a");
    let b = key("sweep", b"b");

    store.claim_at(&a, Span::from_millis(50), at(0)).unwrap();
    // At capacity, but the sole slot is expired: the forced sweep
    // frees it instead of failing closed.
    assert!(matches!(
        store.claim_at(&b, Span::from_secs(60), at(90)),
        Ok(Claim::First)
    ));
    assert_eq!(store.len(), 1);
}

#[test]
fn complete_after_release_records_a_lapsed_response() {
    let mut store = MemoryStore::new();
    let k = key("orders", b"late");

    store.claim(&k, Span::from_secs(60)).unwrap();
    store.release(&k).unwrap();
    // Complete finds no claim: records a lapsed response rather than
    // erroring, so the next claim is First (not a stale replay).
    store.complete(&k, b"orphan".to_vec()).unwrap();
    assert!(matches!(
        store.claim(&k, Span::from_secs(60)),
        Ok(Claim::First)
    ));
}

#[test]
fn response_window_matches_claim_window() {
    let mut store = MemoryStore::new();
    let k = key("orders", b"window");

    store.claim(&k, Span::from_secs(60)).unwrap();
    // Complete well before the claim deadline: the replay window is
    // the remaining claim window.
    store.complete(&k, b"resp".to_vec()).unwrap();
    assert!(matches!(
        store.claim(&k, Span::from_secs(60)),
        Ok(Claim::Replay(_))
    ));
}

#[test]
fn accessors_and_minimum_capacity() {
    let mut store = MemoryStore::with_capacity(0);
    assert_eq!(store.capacity(), 1, "capacity minimum is one");
    assert!(store.is_empty());
    store.claim(&key("acc", b"one"), Span::from_secs(1)).unwrap();
    assert_eq!(store.len(), 1);
    assert!(!store.is_empty());
    store.sweep_expired();
    assert_eq!(store.len(), 1, "live entries survive a manual sweep");

    assert_eq!(MemoryStore::new().capacity(), DEFAULT_CAPACITY);
}

#[test]
fn store_lifecycle_first_inflight_replay_release() {
    let mut store = MemoryStore::new();
    let k = key("lifecycle", b"request-body");

    // First claim wins.
    assert!(matches!(
        store.claim(&k, Span::from_secs(60)).unwrap(),
        Claim::First
    ));
    // A held claim blocks concurrent callers.
    assert!(matches!(
        store.claim(&k, Span::from_secs(60)).unwrap(),
        Claim::InFlight
    ));
    // Completing records the response for replay.
    store.complete(&k, b"response-bytes".to_vec()).unwrap();
    assert!(
        matches!(store.claim(&k, Span::from_secs(60)).unwrap(), Claim::Replay(bytes) if bytes == b"response-bytes")
    );
    // Releasing forgets the claim entirely: the next caller executes.
    store.release(&k).unwrap();
    assert!(matches!(
        store.claim(&k, Span::from_secs(60)).unwrap(),
        Claim::First
    ));
}

#[test]
fn ttl_expiry_reclaims_expired_claims() {
    let mut store = MemoryStore::new();
    let k = key("ttl", b"short-window");

    store.claim_at(&k, Span::from_millis(80), at(0)).unwrap();
    assert!(matches!(
        store.claim_at(&k, Span::from_secs(60), at(0)).unwrap(),
        Claim::InFlight
    ));

    // Past the window the claim lapses and the key is claimable again.
    assert!(matches!(
        store.claim_at(&k, Span::from_secs(60), at(150)).unwrap(),
        Claim::First
    ));
}

#[test]
fn capacity_fails_closed_without_eviction() {
    let mut store = MemoryStore::with_capacity(2);
    let a = key("cap", b"a");
    let b = key("cap", b"b");
    let c = key("cap", b"c");

    store.claim(&a, Span::from_secs(60)).unwrap();
    store.claim(&b, Span::from_secs(60)).unwrap();
    assert_eq!(
        store.claim(&c, Span::from_secs(60)).unwrap_err(),
        StoreError::CapacityExceeded,
        "fresh claims at capacity must fail closed"
    );

    // Fail-closed means fail closed: the tracked claims are intact.
    assert!(matches!(
        store.claim(&a, Span::from_secs(60)).unwrap(),
        Claim::InFlight
    ));
    assert!(matches!(
        store.claim(&b, Span::from_secs(60)).unwrap(),
        Claim::InFlight
    ));
}

#[test]
fn deadlines_are_exclusive() {
    let mut store = MemoryStore::default();
    let k = key("edge", b"deadline");
    assert_eq!(store.capacity(), 65_536);

    assert_eq!(store.claim_at(&k, at(60), at(5)), Ok(Claim::First));
    assert_eq!(
        store.claim_at(&k, at(60), Span::new(0, 64_999_999)),
        Ok(Claim::InFlight)
    );
    assert_eq!(store.claim_at(&k, at(60), at(65)), Ok(Claim::First));
}

#[test]
fn completing_does_not_extend_the_window() {
    let mut store = MemoryStore::new();
    let k = key("window", b"fixed");

    store.claim_at(&k, at(100), at(0)).unwrap();
    store.complete_at(&k, b"resp".to_vec(), at(90));
    assert_eq!(
        store.claim_at(&k, at(100), at(99)),
        Ok(Claim::Replay(b"resp".to_vec()))
    );
    assert_eq!(store.claim_at(&k, at(100), at(100)), Ok(Claim::First));
}

#[test]
fn completing_a_lapsed_claim_does_not_replay() {
    let mut store = MemoryStore::new();
    let k = key("window", b"overrun");

    store.claim_at(&k, at(10), at(0)).unwrap();
    store.complete_at(&k, b"late".to_vec(), at(20));
    assert_eq!(store.len(), 1);
    assert_eq!(store.claim_at(&k, at(10), at(20)), Ok(Claim::First));
}

#[test]
fn a_zero_ttl_is_floored_to_one_second() {
    let mut store = MemoryStore::new();
    let k = key("window", b"zero");

    assert_eq!(store.claim_at(&k, at(0), at(0)), Ok(Claim::First));
    assert_eq!(store.claim_at(&k, at(0), at(1)), Ok(Claim::InFlight));
    assert_eq!(
        store.claim_at(&k, at(0), Span::new(0, 999_999_999)),
        Ok(Claim::InFlight)
    );
    // A reclaimed slot gets the floor too.
    assert_eq!(store.claim_at(&k, at(0), at(1_000)), Ok(Claim::First));
    assert_eq!(store.claim_at(&k, at(0), at(1_999)), Ok(Claim::InFlight));
    assert_eq!(store.claim_at(&k, at(0), at(2_000)), Ok(Claim::First));
}

#[test]
fn a_zero_ttl_claim_replays_its_response() {
    let mut store = MemoryStore::new();
    let k = key("window", b"zero-replay");

    assert_eq!(store.claim(&k, Span::from_secs(0)), Ok(Claim::First));
    store.complete(&k, b"resp".to_vec()).unwrap();
    assert_eq!(
        store.claim(&k, Span::from_secs(0)),
        Ok(Claim::Replay(b"resp".to_vec()))
    );
}

#[test]
fn the_shortest_positive_ttl_is_not_floored() {
    let mut store = MemoryStore::new();
    let k = key("window", b"one-nano");

    assert_eq!(store.claim_at(&k, Span::new(0, 1), at(0)), Ok(Claim::First));
    assert_eq!(store.claim_at(&k, Span::new(0, 1), at(0)), Ok(Claim::InFlight));
    assert_eq!(
        store.claim_at(&k, Span::new(0, 1), Span::new(0, 1)),
        Ok(Claim::First)
    );
}

#[test]
fn completions_may_exceed_the_capacity() {
    let mut store = MemoryStore::with_capacity(1);
    let a = key("soft", b"a");
    let b = key("soft", b"b");
    let c = key("soft", b"c");

    store.claim_at(&a, at(100), at(0)).unwrap();
    store.complete_at(&b, b"extra".to_vec(), at(1));
    assert_eq!(store.len(), 2);
    // The orphaned response is swept, the live claim still fills the store.
    assert_eq!(
        store.claim_at(&c, at(100), at(2)),
        Err(StoreError::CapacityExceeded)
    );
    assert_eq!(store.len(), 1);
    assert_eq!(store.claim_at(&a, at(100), at(2)), Ok(Claim::InFlight));
}

#[test]
fn every_1024th_fresh_claim_sweeps() {
    let mut store = MemoryStore::new();
    for i in 1..=3_072_u32 {
        let k = key("bulk", &i.to_le_bytes());
        assert_eq!(store.claim_at(&k, at(1), at(u64::from(i) * 10)), Ok(Claim::First));
        // Each claim lapses before the next, and stays until a sweep. The
        // claim that sweeps keeps its own slot.
        let since_sweep = if i < 1_024 { i } else { i % 1_024 + 1 };
        assert_eq!(store.len(), since_sweep as usize);
    }
}

#[test]
fn tracked_keys_do_not_count_towards_a_sweep() {
    let mut store = MemoryStore::new();
    let lapsed = key("bulk", b"lapsed");
    store.claim_at(&lapsed, at(1), at(0)).unwrap();

    let held = key("bulk", b"held");
    for _ in 0..2_048 {
        store.claim_at(&held, at(1_000), at(10)).unwrap();
    }
    assert_eq!(store.len(), 2);
}

#[test]
fn two_claims_are_first_after_a_lapse_or_a_release_alone() {
    let mut store = MemoryStore::new();
    let k = key("race", b"twice");

    assert_eq!(store.claim_at(&k, at(100), at(0)), Ok(Claim::First));
    store.complete_at(&k, b"one".to_vec(), at(10));
    store.complete_at(&k, b"two".to_vec(), at(20));
    assert_eq!(
        store.claim_at(&k, at(100), at(99)),
        Ok(Claim::Replay(b"two".to_vec()))
    );
    assert_eq!(store.claim_at(&k, at(100), at(100)), Ok(Claim::First));
    store.release(&k).unwrap();
    assert_eq!(store.claim_at(&k, at(100), at(101)), Ok(Claim::First));
}

#[test]
fn completing_tracked_keys_keeps_the_store_within_capacity() {
    let mut store = MemoryStore::with_capacity(2);
    let a = key("bound", b"a");
    let b = key("bound", b"b");
    let c = key("bound", b"c");

    store.claim_at(&a, at(100), at(0)).unwrap();
    store.claim_at(&b, at(100), at(0)).unwrap();
    store.complete_at(&a, b"one".to_vec(), at(1));
    store.complete_at(&a, b"two".to_vec(), at(2));
    store.complete_at(&b, b"one".to_vec(), at(3));
    assert_eq!(store.len(), 2);
    assert_eq!(
        store.claim_at(&c, at(100), at(4)),
        Err(StoreError::CapacityExceeded)
    );
    assert_eq!(store.len(), 2);
}

#[test]
fn an_orphaned_response_does_not_admit_a_claim_past_the_capacity() {
    let mut store = MemoryStore::with_capacity(1);
    let a = key("soft", b"claimed");
    let b = key("soft", b"orphan");

    assert_eq!(store.claim_at(&a, at(100), at(0)), Ok(Claim::First));
    store.complete_at(&b, b"extra".to_vec(), at(1));
    assert_eq!(store.len(), 2);
    assert_eq!(
        store.claim_at(&b, at(100), at(2)),
        Err(StoreError::CapacityExceeded)
    );
    assert_eq!(store.len(), 1);
    assert_eq!(store.claim_at(&a, at(100), at(3)), Ok(Claim::InFlight));
    // Once the live claim has lapsed there is room again.
    assert_eq!(store.claim_at(&b, at(100), at(100)), Ok(Claim::First));
}

#[test]
fn late_completions_do_not_admit_claims_past_the_capacity() {
    let mut store = MemoryStore::with_capacity(2);
    let late = [key("late", b"0"), key("late", b"1"), key("late", b"2")];
    let held = [key("held", b"0"), key("held", b"1")];

    // Requests that outlive their windows are swept when others need room.
    store.claim_at(&late[0], at(10), at(0)).unwrap();
    store.claim_at(&late[1], at(10), at(0)).unwrap();
    assert_eq!(store.claim_at(&held[0], at(1_000), at(20)), Ok(Claim::First));
    assert_eq!(store.claim_at(&held[1], at(1_000), at(20)), Ok(Claim::First));
    assert_eq!(store.len(), 2);

    for (i, k) in late.iter().enumerate() {
        let now = 30 + 10 * i as u64;
        store.complete_at(k, b"late".to_vec(), at(now));
        assert_eq!(
            store.claim_at(k, at(1_000), at(now + 1)),
            Err(StoreError::CapacityExceeded)
        );
        store.sweep_expired_at(at(now + 1));
        assert_eq!(store.len(), 2);
    }
    assert_eq!(store.claim_at(&held[0], at(1), at(70)), Ok(Claim::InFlight));
    assert_eq!(store.claim_at(&held[1], at(1), at(70)), Ok(Claim::InFlight));
}

#[test]
fn a_lapsed_slot_past_the_capacity_is_claimed_where_there_is_room() {
    let mut store = MemoryStore::with_capacity(2);
    let a = key("room", b"a");
    let b = key("room", b"b");
    let c = key("room", b"c");

    assert_eq!(store.claim_at(&a, at(100), at(0)), Ok(Claim::First));
    store.complete_at(&b, b"one".to_vec(), at(1));
    store.complete_at(&c, b"two".to_vec(), at(1));
    assert_eq!(store.len(), 3);
    // One claim is live: the other expired slot is pruned, the key's own is
    // claimed anew.
    assert_eq!(store.claim_at(&b, at(100), at(2)), Ok(Claim::First));
    assert_eq!(store.len(), 2);
    assert_eq!(store.claim_at(&b, at(100), at(3)), Ok(Claim::InFlight));
    assert_eq!(
        store.claim_at(&c, at(100), at(3)),
        Err(StoreError::CapacityExceeded)
    );
}

#[test]
fn a_released_claim_leaves_room_in_a_full_store() {
    let mut store = MemoryStore::with_capacity(1);
    let a = key("room", b"released");
    let b = key("room", b"next");

    assert_eq!(store.claim_at(&a, at(100), at(0)), Ok(Claim::First));
    store.complete_at(&b, b"extra".to_vec(), at(1));
    store.release(&a).unwrap();
    assert_eq!(store.claim_at(&a, at(100), at(2)), Ok(Claim::First));
    assert_eq!(
        store.claim_at(&b, at(100), at(3)),
        Err(StoreError::CapacityExceeded)
    );
}

#[test]
fn readings_of_the_clock_do_not_decrease() {
    let mut store = MemoryStore::new();
    for i in 0..200_u32 {
        let k = key("clock", &i.to_le_bytes());
        assert_eq!(store.claim(&k, Span::from_secs(60)), Ok(Claim::First));
        store.release(&k).unwrap();
        store.complete(&k, b"orphan".to_vec()).unwrap();
        // An earlier reading would find the recorded response live.
        assert_eq!(store.claim(&k, Span::from_secs(60)), Ok(Claim::First));
    }
}

#[test]
fn manual_sweeps_drop_the_expired_alone() {
    let mut store = MemoryStore::new();
    let short = key("sweep", b"short");
    let long = key("sweep", b"long");

    store.claim_at(&short, at(10), at(0)).unwrap();
    store.claim_at(&long, at(1_000), at(0)).unwrap();
    store.sweep_expired_at(at(9));
    assert_eq!(store.len(), 2);
    store.sweep_expired_at(at(10));
    assert_eq!(store.len(), 1);
    assert_eq!(store.claim_at(&long, at(10), at(10)), Ok(Claim::InFlight));
}

#[test]
fn one_winner_among_interleaved_claims() {
    let mut store = MemoryStore::with_capacity(8);
    let k = key("race", b"contended");
    let other = key("race", b"other");

    assert_eq!(store.claim_at(&k, at(100), at(0)), Ok(Claim::First));
    for i in 1..100 {
        assert_eq!(store.claim_at(&k, at(1_000), at(i)), Ok(Claim::InFlight));
        store.claim_at(&other, at(5), at(i)).unwrap();
        store.release(&other).unwrap();
        store.sweep_expired_at(at(i));
    }
    assert_eq!(store.claim_at(&k, at(1_000), at(100)), Ok(Claim::First));
}

#[test]
fn the_clock_lapses_claims() {
    let mut store = MemoryStore::new();
    let k = key("clock", b"spin");

    store.claim(&k, Span::from_millis(2)).unwrap();
    let start = std::time::Instant::now();
    while start.elapsed().as_millis() < 5 {}
    assert_eq!(store.claim(&k, Span::from_secs(60)), Ok(Claim::First));
    assert_eq!(store.claim(&k, Span::from_secs(60)), Ok(Claim::InFlight));

    store.claim(&key("clock", b"short"), Span::from_millis(2)).unwrap();
    let start = std::time::Instant::now();
    while start.elapsed().as_millis() < 5 {}
    store.sweep_expired();
    assert_eq!(store.len(), 1);
}
