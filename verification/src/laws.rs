//! What holds of the in-process store across operations.

use crate::error::{IdempotencyError, IdempotencyErrorView, StoreError, StoreErrorView};
use crate::executor::IdempotencyExecutor;
use crate::key::{IdempotencyKey, KeyView};
use crate::memory::{MemoryStore, DEFAULT_CAPACITY};
use crate::model::{Execution, MemoryView, Operation, SWEEP_EVERY};
use crate::slots::SlotView;
use crate::span::{Span, NANOS_PER_SEC};
use crate::store::{Claim, ClaimView, IdempotencyStore};
use vstd::prelude::*;

verus! {

/// Sweeping keeps a finite set of slots finite and does not add any.
proof fn lemma_live_slots_finite(slots: Map<Seq<char>, SlotView>, now: nat)
    requires
        slots.dom().finite(),
    ensures
        crate::slots::live_slots(slots, now).dom().finite(),
        crate::slots::live_slots(slots, now).len() <= slots.len(),
{
    let live = crate::slots::live_slots(slots, now);
    assert(live.dom() =~= slots.dom().intersect(live.dom()));
    assert(live.dom().subset_of(slots.dom()));
    vstd::set_lib::lemma_len_subset(live.dom(), slots.dom());
}

/// If every slot of `after` live at `later` was a slot of `before` live at
/// `now`, no more of them are live.
proof fn lemma_no_more_live(
    before: Map<Seq<char>, SlotView>,
    now: nat,
    after: Map<Seq<char>, SlotView>,
    later: nat,
)
    requires
        before.dom().finite(),
        forall|key: Seq<char>| #[trigger]
            after.contains_key(key) && after[key].is_live(later) ==> before.contains_key(key)
                && before[key].is_live(now),
    ensures
        crate::slots::live_slots(after, later).len() <= crate::slots::live_slots(before, now).len(),
{
    lemma_live_slots_finite(before, now);
    let live = crate::slots::live_slots(before, now);
    assert(crate::slots::live_slots(after, later).dom().subset_of(live.dom()));
    vstd::set_lib::lemma_len_subset(crate::slots::live_slots(after, later).dom(), live.dom());
}

/// Dropping a key without a live slot leaves the live slots as they are; if
/// it has an expired slot, fewer slots are live than tracked.
proof fn lemma_lapsed_slot_is_absent(s: MemoryView, key: Seq<char>, now: nat)
    requires
        s.wf(),
        !s.is_live(key, now),
    ensures
        crate::slots::live_slots(s.release(key).slots, now) == crate::slots::live_slots(
            s.slots,
            now,
        ),
        s.slots.contains_key(key) ==> crate::slots::live_slots(s.slots, now).len() < s.slots.len(),
{
    assert(crate::slots::live_slots(s.release(key).slots, now) =~= crate::slots::live_slots(
        s.slots,
        now,
    ));
    lemma_live_slots_finite(s.release(key).slots, now);
}

/// Every operation keeps the invariant and the capacity bound.
pub proof fn law_operations_keep_invariant(s: MemoryView, op: Operation)
    requires
        s.wf(),
    ensures
        s.apply(op).wf(),
        s.apply(op).capacity == s.capacity,
{
    match op {
        Operation::Claim { key, ttl, now } => {
            lemma_live_slots_finite(s.release(key).slots, now);
        },
        Operation::Complete { .. } => {},
        Operation::Release { .. } => {},
        Operation::Sweep { now } => {
            lemma_live_slots_finite(s.slots, now);
        },
    }
}

/// A sequence of operations keeps the invariant and the capacity bound.
pub proof fn law_runs_keep_invariant(s: MemoryView, ops: Seq<Operation>)
    requires
        s.wf(),
    ensures
        s.run(ops).wf(),
        s.run(ops).capacity == s.capacity,
    decreases ops.len(),
{
    if ops.len() > 0 {
        law_runs_keep_invariant(s, ops.drop_last());
        law_operations_keep_invariant(s.run(ops.drop_last()), ops.last());
    }
}

/// What a claim returns, exactly. A live slot answers: with its response if
/// there is one, as in flight otherwise. Without one the claim is the first
/// if and only if fewer slots are live than the store has room for, and it is
/// refused otherwise.
pub proof fn law_claim_outcomes(s: MemoryView, key: Seq<char>, ttl: nat, now: nat)
    requires
        s.wf(),
    ensures
        ({
            let result = s.claim(key, ttl, now).0;
            let live = crate::slots::live_slots(s.slots, now).len();
            &&& forall|response: Seq<u8>|
                (result == Ok::<ClaimView, StoreErrorView>(ClaimView::Replay(response))) <==> (
                s.is_live(key, now) && s.slots[key].response == Some(response))
            &&& (result == Ok::<ClaimView, StoreErrorView>(ClaimView::InFlight)) <==> (s.is_live(
                key,
                now,
            ) && s.slots[key].response is None)
            &&& (result == Ok::<ClaimView, StoreErrorView>(ClaimView::First)) <==> (!s.is_live(
                key,
                now,
            ) && live < s.capacity)
            &&& (result == Err::<ClaimView, StoreErrorView>(StoreErrorView::CapacityExceeded))
                <==> (!s.is_live(key, now) && live >= s.capacity)
            &&& result is Err ==> result->Err_0 is CapacityExceeded
        }),
{
    lemma_live_slots_finite(s.slots, now);
    if !s.is_live(key, now) {
        lemma_lapsed_slot_is_absent(s, key, now);
    }
}

/// Fail-closed: whatever a claim returns, no other slot live at that time is
/// dropped or altered, and neither is a live slot of the key itself.
pub proof fn law_claims_evict_nothing_live(
    s: MemoryView,
    key: Seq<char>,
    ttl: nat,
    now: nat,
    other: Seq<char>,
)
    requires
        s.is_live(other, now),
    ensures
        s.claim(key, ttl, now).1.slots.contains_pair(other, s.slots[other]),
{
}

/// A refused claim leaves a store in which every tracked slot is live and
/// which holds every slot that was live before, at least as many as the
/// capacity.
pub proof fn law_refusal_means_full_of_live_claims(
    s: MemoryView,
    key: Seq<char>,
    ttl: nat,
    now: nat,
)
    requires
        s.wf(),
        s.claim(key, ttl, now).0 is Err,
    ensures
        s.claim(key, ttl, now).1.slots == crate::slots::live_slots(s.slots, now),
        s.claim(key, ttl, now).1.slots.len() >= s.capacity,
        forall|other: Seq<char>|
            #[trigger] s.claim(key, ttl, now).1.slots.contains_key(other) ==> s.claim(
                key,
                ttl,
                now,
            ).1.is_live(other, now),
{
    law_claim_outcomes(s, key, ttl, now);
    lemma_live_slots_finite(s.slots, now);
    lemma_lapsed_slot_is_absent(s, key, now);
}

/// A slot survives, unchanged, every sequence of operations that takes place
/// before its deadline and does not complete or release its key. Until then
/// a claim of the key gets its answer and changes nothing.
pub proof fn law_live_slot_survives(s: MemoryView, key: Seq<char>, ops: Seq<Operation>)
    requires
        s.slots.contains_key(key),
        crate::model::all_spare(ops, key, s.slots[key].deadline),
    ensures
        s.run(ops).slots.contains_pair(key, s.slots[key]),
        forall|ttl: nat, now: nat|
            now < s.slots[key].deadline ==> #[trigger] s.run(ops).claim(key, ttl, now) == (
                Ok::<ClaimView, StoreErrorView>(s.slots[key].answer()),
                s.run(ops),
            ),
    decreases ops.len(),
{
    if ops.len() > 0 {
        let before = ops.drop_last();
        assert forall|i: int| 0 <= i < before.len() implies (#[trigger] before[i]).spares(
            key,
            s.slots[key].deadline,
        ) by {
            assert(before[i] == ops[i]);
        }
        law_live_slot_survives(s, key, before);
        assert(ops[ops.len() - 1].spares(key, s.slots[key].deadline));
    }
}

/// One winner per window: once a claim was the first, every claim of the key
/// before its deadline is told that the request is in flight, however many
/// other operations take place in between, unless they complete or release
/// the key.
pub proof fn law_single_winner(
    s: MemoryView,
    key: Seq<char>,
    ttl: nat,
    now: nat,
    ops: Seq<Operation>,
    later_ttl: nat,
    later: nat,
)
    requires
        s.claim(key, ttl, now).0 == Ok::<ClaimView, StoreErrorView>(ClaimView::First),
        crate::model::all_spare(ops, key, now + crate::model::window(ttl)),
        later < now + crate::model::window(ttl),
    ensures
        ({
            let held = s.claim(key, ttl, now).1.run(ops);
            held.claim(key, later_ttl, later) == (
                Ok::<ClaimView, StoreErrorView>(ClaimView::InFlight),
                held,
            )
        }),
{
    law_live_slot_survives(s.claim(key, ttl, now).1, key, ops);
}

/// A slot whose key is not released stays tracked until its deadline, with
/// that deadline, whether its response is recorded in between or not.
pub proof fn law_unreleased_slot_keeps_its_deadline(
    s: MemoryView,
    key: Seq<char>,
    ops: Seq<Operation>,
    later: nat,
)
    requires
        s.slots.contains_key(key),
        later < s.slots[key].deadline,
        forall|i: int|
            0 <= i < ops.len() ==> (#[trigger] ops[i]).not_after(later) && ops[i]
                != (Operation::Release { key }),
    ensures
        s.run(ops).slots.contains_key(key),
        s.run(ops).slots[key].deadline == s.slots[key].deadline,
    decreases ops.len(),
{
    if ops.len() > 0 {
        let before = ops.drop_last();
        assert forall|i: int| 0 <= i < before.len() implies (#[trigger] before[i]).not_after(later)
            && before[i] != (Operation::Release { key }) by {
            assert(before[i] == ops[i]);
        }
        law_unreleased_slot_keeps_its_deadline(s, key, before, later);
        assert(ops[ops.len() - 1].not_after(later));
    }
}

/// Two callers are the first for one key only if the second claims at or
/// after the first one's deadline, or the key is released in between.
pub proof fn law_second_first_needs_lapse_or_release(
    s: MemoryView,
    key: Seq<char>,
    ttl: nat,
    now: nat,
    ops: Seq<Operation>,
    later_ttl: nat,
    later: nat,
)
    requires
        s.claim(key, ttl, now).0 == Ok::<ClaimView, StoreErrorView>(ClaimView::First),
        forall|i: int| 0 <= i < ops.len() ==> (#[trigger] ops[i]).not_after(later),
        s.claim(key, ttl, now).1.run(ops).claim(key, later_ttl, later).0 == Ok::<
            ClaimView,
            StoreErrorView,
        >(ClaimView::First),
    ensures
        later >= now + crate::model::window(ttl) || exists|i: int|
            0 <= i < ops.len() && #[trigger] ops[i] == (Operation::Release { key }),
{
    if later < now + crate::model::window(ttl) && forall|i: int|
        0 <= i < ops.len() ==> #[trigger] ops[i] != (Operation::Release { key }) {
        law_unreleased_slot_keeps_its_deadline(s.claim(key, ttl, now).1, key, ops, later);
    }
}

/// A recorded response replays: a claim was the first, its response was
/// recorded inside its window, and then every claim of the key before the
/// deadline gets that response, whatever else takes place in between, unless
/// the key is completed again or released.
pub proof fn law_recorded_response_replays(
    s: MemoryView,
    key: Seq<char>,
    ttl: nat,
    now: nat,
    before: Seq<Operation>,
    response: Seq<u8>,
    finished_at: nat,
    after: Seq<Operation>,
    later_ttl: nat,
    later: nat,
)
    requires
        s.claim(key, ttl, now).0 == Ok::<ClaimView, StoreErrorView>(ClaimView::First),
        crate::model::all_spare(before, key, now + crate::model::window(ttl)),
        finished_at < now + crate::model::window(ttl),
        crate::model::all_spare(after, key, now + crate::model::window(ttl)),
        later < now + crate::model::window(ttl),
    ensures
        ({
            let held = s.claim(key, ttl, now).1.run(before);
            let done = held.complete(key, response, finished_at).run(after);
            done.claim(key, later_ttl, later) == (
                Ok::<ClaimView, StoreErrorView>(ClaimView::Replay(response)),
                done,
            )
        }),
{
    let first = s.claim(key, ttl, now).1;
    law_live_slot_survives(first, key, before);
    law_live_slot_survives(first.run(before).complete(key, response, finished_at), key, after);
}

/// The response window is the claim window: recording a response inside the
/// window does not move the deadline.
pub proof fn law_completion_keeps_the_deadline(
    s: MemoryView,
    key: Seq<char>,
    response: Seq<u8>,
    now: nat,
)
    requires
        s.is_live(key, now),
    ensures
        s.complete(key, response, now).slots[key].deadline == s.slots[key].deadline,
{
}

/// From its deadline on a slot, finished or not, neither replays nor blocks.
/// The next claim of the key is the first again, with a window of its own,
/// unless live claims fill the store. In a store within its capacity, where
/// they cannot, the slot is reclaimed in place. In one past it, every expired
/// slot is pruned first.
pub proof fn law_lapsed_slot_is_reclaimed(s: MemoryView, key: Seq<char>, ttl: nat, now: nat)
    requires
        s.wf(),
        s.slots.contains_key(key),
        now >= s.slots[key].deadline,
    ensures
        ({
            let deadline = now + crate::model::window(ttl);
            let pruned = MemoryView { fresh_inserts: 0, ..s.swept(now) };
            s.claim(key, ttl, now) == if s.slots.len() <= s.capacity {
                (Ok::<ClaimView, StoreErrorView>(ClaimView::First), s.with_claim(key, deadline))
            } else if crate::slots::live_slots(s.slots, now).len() < s.capacity {
                (Ok(ClaimView::First), pruned.with_claim(key, deadline))
            } else {
                (Err(StoreErrorView::CapacityExceeded), pruned)
            }
        }),
        s.slots.len() <= s.capacity ==> crate::slots::live_slots(s.slots, now).len() < s.capacity,
{
    lemma_lapsed_slot_is_absent(s, key, now);
}

/// A first claim is live as soon as it is made, whatever its TTL: one second
/// long if that is zero, and as long as the TTL otherwise.
pub proof fn law_first_claim_holds_the_key(s: MemoryView, key: Seq<char>, ttl: nat, now: nat)
    requires
        s.claim(key, ttl, now).0 == Ok::<ClaimView, StoreErrorView>(ClaimView::First),
    ensures
        s.claim(key, ttl, now).1.is_live(key, now),
        s.claim(key, ttl, now).1.slots[key] == (SlotView {
            deadline: now + (if ttl == 0 {
                NANOS_PER_SEC as nat
            } else {
                ttl
            }),
            response: None,
        }),
{
}

/// A response recorded for a key that holds no live claim does not replay:
/// the next claim of the key is the first, unless live claims fill the store,
/// which then refuses it.
pub proof fn law_orphaned_response_is_lapsed(
    s: MemoryView,
    key: Seq<char>,
    response: Seq<u8>,
    now: nat,
    ttl: nat,
    later: nat,
)
    requires
        s.wf(),
        !s.is_live(key, now),
        now <= later,
    ensures
        s.complete(key, response, now).claim(key, ttl, later).0 == if crate::slots::live_slots(
            s.slots,
            later,
        ).len() < s.capacity {
            Ok::<ClaimView, StoreErrorView>(ClaimView::First)
        } else {
            Err(StoreErrorView::CapacityExceeded)
        },
{
    let done = s.complete(key, response, now);
    assert(crate::slots::live_slots(done.slots, later) =~= crate::slots::live_slots(
        s.slots,
        later,
    ));
    law_claim_outcomes(done, key, ttl, later);
}

/// Releasing a live key reopens it: while no more claims are live than the
/// capacity, the next claim of the key is the first. So is one of any other
/// key that is not live.
pub proof fn law_release_reopens(
    s: MemoryView,
    key: Seq<char>,
    released_at: nat,
    next: Seq<char>,
    ttl: nat,
    now: nat,
)
    requires
        s.wf(),
        s.is_live(key, released_at),
        crate::slots::live_slots(s.slots, released_at).len() <= s.capacity,
        released_at <= now,
        next == key || !s.is_live(next, now),
    ensures
        s.release(key).claim(next, ttl, now).0 == Ok::<ClaimView, StoreErrorView>(
            ClaimView::First,
        ),
{
    let live = crate::slots::live_slots(s.slots, released_at);
    lemma_live_slots_finite(s.slots, released_at);
    assert(crate::slots::live_slots(s.release(key).slots, released_at) =~= live.remove(key));
    assert(live.dom().contains(key));
    lemma_no_more_live(s.release(key).slots, released_at, s.release(key).slots, now);
    law_claim_outcomes(s.release(key), next, ttl, now);
}

/// Operations on one key leave the slots of the others alone, but for
/// expired ones, which a claim may prune.
pub proof fn law_keys_are_independent(
    s: MemoryView,
    key: Seq<char>,
    other: Seq<char>,
    ttl: nat,
    response: Seq<u8>,
    now: nat,
)
    requires
        key != other,
    ensures
        s.complete(key, response, now).slots.index_opt(other) == s.slots.index_opt(other),
        s.release(key).slots.index_opt(other) == s.slots.index_opt(other),
        s.claim(key, ttl, now).1.slots.index_opt(other) == s.slots.index_opt(other) || (
        !s.is_live(other, now) && s.claim(key, ttl, now).1.slots.index_opt(other) is None),
{
}

/// A sweep keeps the slots live at the time, unchanged, and no other.
pub proof fn law_sweep_drops_exactly_the_expired(s: MemoryView, now: nat, key: Seq<char>)
    ensures
        s.swept(now).slots.contains_key(key) <==> s.is_live(key, now),
        s.is_live(key, now) ==> s.swept(now).slots[key] == s.slots[key],
        s.swept(now).swept(now) == s.swept(now),
{
    assert(s.swept(now).swept(now).slots =~= s.swept(now).slots);
}

/// Claims never add slots past the capacity: a sequence of operations
/// leaves it with at most as many slots as it had or has room for, whichever
/// is more, and one for each response recorded on the way for a key that was
/// not tracked.
pub proof fn law_capacity_bound(s: MemoryView, ops: Seq<Operation>)
    requires
        s.wf(),
    ensures
        s.run(ops).slots.len() <= (if s.slots.len() > s.capacity {
            s.slots.len()
        } else {
            s.capacity
        }) + s.orphans(ops),
    decreases ops.len(),
{
    if ops.len() > 0 {
        let before = s.run(ops.drop_last());
        law_capacity_bound(s, ops.drop_last());
        law_runs_keep_invariant(s, ops.drop_last());
        match ops.last() {
            Operation::Claim { key, now, .. } => {
                lemma_live_slots_finite(before.release(key).slots, now);
            },
            Operation::Sweep { now } => {
                lemma_live_slots_finite(before.slots, now);
            },
            _ => {},
        }
    }
}

/// As long as responses are recorded for tracked keys alone, a store that
/// starts empty never tracks more slots than its capacity, expired ones
/// included.
pub proof fn law_tracked_slots_stay_within_capacity(capacity: nat, ops: Seq<Operation>, n: int)
    requires
        MemoryView::empty(capacity).orphans(ops) == 0,
        0 <= n <= ops.len(),
    ensures
        MemoryView::empty(capacity).run(ops.take(n)).slots.len() <= (if capacity < 1 {
            1
        } else {
            capacity
        }),
    decreases ops.len(),
{
    if n < ops.len() {
        assert(ops.drop_last().take(n) =~= ops.take(n));
        law_tracked_slots_stay_within_capacity(capacity, ops.drop_last(), n);
    } else {
        assert(ops.take(n) =~= ops);
        law_capacity_bound(MemoryView::empty(capacity), ops);
    }
}

/// An operation that takes place at `at` keeps the bound on live claims.
proof fn lemma_operation_keeps_live_bound(s: MemoryView, op: Operation, from: nat, at: nat)
    requires
        s.wf(),
        s.live_within_capacity(from),
        from <= at,
        op.reads(at),
    ensures
        s.apply(op).live_within_capacity(at),
{
    let after = s.apply(op);
    law_operations_keep_invariant(s, op);
    assert forall|now: nat| at <= now implies #[trigger] crate::slots::live_slots(
        after.slots,
        now,
    ).len() <= after.capacity by {
        assert(crate::slots::live_slots(s.slots, now).len() <= s.capacity);
        match op {
            Operation::Claim { key, ttl, .. } => {
                if s.is_live(key, at) || s.claim(key, ttl, at).0 is Err {
                    lemma_no_more_live(s.slots, now, after.slots, now);
                } else {
                    lemma_live_slots_finite(s.release(key).slots, at);
                    lemma_live_slots_finite(after.slots, now);
                }
            },
            _ => {
                lemma_no_more_live(s.slots, now, after.slots, now);
            },
        }
    }
}

/// A store that starts empty holds the bound on live claims from the start.
pub proof fn law_new_store_holds_live_bound(capacity: nat)
    ensures
        MemoryView::empty(capacity).live_within_capacity(0),
{
    let s = MemoryView::empty(capacity);
    assert forall|now: nat| #[trigger] crate::slots::live_slots(s.slots, now).len()
        <= s.capacity by {
        lemma_live_slots_finite(s.slots, now);
    }
}

/// Capacity is bounded: whatever operations a store that starts empty goes
/// through, one after the other, no more claims are live than its capacity,
/// from the last of them on.
pub proof fn law_live_claims_stay_within_capacity(
    capacity: nat,
    ops: Seq<Operation>,
    times: Seq<nat>,
)
    requires
        crate::model::read_in_order(ops, times),
    ensures
        forall|now: nat|
            (times.len() == 0 || times.last() <= now) ==> #[trigger] crate::slots::live_slots(
                MemoryView::empty(capacity).run(ops).slots,
                now,
            ).len() <= (if capacity < 1 {
                1
            } else {
                capacity
            }),
    decreases ops.len(),
{
    let s = MemoryView::empty(capacity);
    if ops.len() == 0 {
        law_new_store_holds_live_bound(capacity);
    } else {
        let before = ops.drop_last();
        let earlier = times.drop_last();
        assert forall|i: int| 0 <= i < before.len() implies (#[trigger] before[i]).reads(
            earlier[i],
        ) by {
            assert(before[i] == ops[i]);
        }
        law_live_claims_stay_within_capacity(capacity, before, earlier);
        law_runs_keep_invariant(s, before);
        let from: nat = if earlier.len() == 0 {
            0
        } else {
            earlier.last()
        };
        assert(ops[ops.len() - 1].reads(times[times.len() - 1]));
        lemma_operation_keeps_live_bound(s.run(before), ops.last(), from, times.last());
        law_runs_keep_invariant(s, ops);
    }
}

/// The bound on live claims is an invariant of the store itself: every call
/// that reads the clock, and every release, keeps it from the last reading
/// on.
pub proof fn law_calls_keep_live_bound(
    before: MemoryStore,
    after: MemoryStore,
    key: KeyView,
    ttl: nat,
    claim: Result<ClaimView, StoreErrorView>,
    response: Seq<u8>,
    result: Result<(), StoreErrorView>,
)
    requires
        before@.wf(),
        before@.live_within_capacity(before.last()),
        ({
            ||| before.claims(key, ttl, claim, &after)
            ||| before.completes(key, response, result, &after)
            ||| before.releases(key, result, &after)
            ||| before.last() <= after.last() && after@ == before@.swept(after.last())
        }),
    ensures
        after@.wf(),
        after@.capacity == before@.capacity,
        after@.live_within_capacity(after.last()),
{
    let text = key.text();
    let now = after.last();
    let op = if before.claims(key, ttl, claim, &after) {
        Operation::Claim { key: text, ttl, now }
    } else if before.completes(key, response, result, &after) {
        Operation::Complete { key: text, response, now }
    } else if before.releases(key, result, &after) {
        Operation::Release { key: text }
    } else {
        Operation::Sweep { now }
    };
    law_operations_keep_invariant(before@, op);
    lemma_operation_keeps_live_bound(before@, op, before.last(), now);
}

/// No sweep before 1,024 fresh claims: while fewer than that were counted,
/// and the store is below its capacity, claims prune nothing.
pub proof fn law_sweeps_are_rare(s: MemoryView, ops: Seq<Operation>)
    requires
        s.wf(),
        s.fresh_inserts + s.fresh_claims(ops) < SWEEP_EVERY,
        s.slots.len() + s.fresh_claims(ops) <= s.capacity,
        forall|i: int| 0 <= i < ops.len() ==> #[trigger] ops[i] is Claim,
    ensures
        s.slots.dom().subset_of(s.run(ops).slots.dom()),
        s.run(ops).slots.len() == s.slots.len() + s.fresh_claims(ops),
        s.run(ops).fresh_inserts == s.fresh_inserts + s.fresh_claims(ops),
    decreases ops.len(),
{
    if ops.len() > 0 {
        let before = ops.drop_last();
        assert forall|i: int| 0 <= i < before.len() implies #[trigger] before[i] is Claim by {
            assert(before[i] == ops[i]);
        }
        law_sweeps_are_rare(s, before);
        law_runs_keep_invariant(s, before);
        assert(ops[ops.len() - 1] is Claim);
    }
}

/// Operations count the fresh claims among them, unless one of these prunes.
proof fn lemma_counts_or_prunes(s: MemoryView, ops: Seq<Operation>)
    requires
        s.wf(),
    ensures
        s.run(ops).fresh_inserts == s.fresh_inserts + s.fresh_claims(ops) || exists|i: int|
            0 <= i < ops.len() && (#[trigger] s.run(ops.take(i))).prunes(ops[i]),
    decreases ops.len(),
{
    if ops.len() > 0 {
        let before = ops.drop_last();
        lemma_counts_or_prunes(s, before);
        law_runs_keep_invariant(s, before);
        if s.run(before).fresh_inserts != s.fresh_inserts + s.fresh_claims(before) {
            let i = choose|i: int|
                0 <= i < before.len() && (#[trigger] s.run(before.take(i))).prunes(before[i]);
            assert(before.take(i) =~= ops.take(i));
            assert(s.run(ops.take(i)).prunes(ops[i]));
        } else if s.run(before).is_fresh_claim(ops.last()) && s.run(before).sweep_due() {
            assert(ops.take(ops.len() - 1) =~= before);
            assert(s.run(ops.take(ops.len() - 1)).prunes(ops[ops.len() - 1]));
        }
    }
}

/// Sweeps recur: among any 1,024 consecutive fresh claims, whatever other
/// operations take place between them, there is one that prunes every slot
/// expired at its time.
pub proof fn law_sweeps_recur(s: MemoryView, ops: Seq<Operation>)
    requires
        s.wf(),
        s.fresh_claims(ops) >= SWEEP_EVERY,
    ensures
        exists|i: int| 0 <= i < ops.len() && (#[trigger] s.run(ops.take(i))).prunes(ops[i]),
{
    lemma_counts_or_prunes(s, ops);
    law_runs_keep_invariant(s, ops);
}

/// A fresh claim counts. The 1,024th, or one that finds the
/// store at capacity, prunes every expired slot and resets the counter.
pub proof fn law_due_sweep_prunes(
    s: MemoryView,
    key: Seq<char>,
    ttl: nat,
    now: nat,
    other: Seq<char>,
)
    requires
        s.wf(),
        !s.decides_in_place(key, now),
        other != key,
    ensures
        ({
            let after = s.claim(key, ttl, now).1;
            if s.fresh_inserts + 1 == SWEEP_EVERY || s.slots.len() >= s.capacity {
                &&& after.slots.contains_key(other) <==> s.is_live(other, now)
                &&& after.fresh_inserts == 0
            } else {
                &&& after.slots.contains_key(other) <==> s.slots.contains_key(other)
                &&& after.fresh_inserts == s.fresh_inserts + 1
            }
        }),
{
}

/// What [`IdempotencyExecutor::execute`](crate::IdempotencyExecutor::execute)
/// promises of any store comes, on this one, to an execution of the model at
/// two readings of the store's clock, the second not earlier than the first.
pub proof fn law_execution_on_this_store(
    before: MemoryStore,
    key: KeyView,
    ttl: nat,
    claim: Result<ClaimView, StoreErrorView>,
    held: MemoryStore,
    outcome: Result<Seq<u8>, Seq<char>>,
    result: Result<Seq<u8>, IdempotencyErrorView>,
    after: MemoryStore,
)
    requires
        before.claims(key, ttl, claim, &held),
        match crate::executor::claim_reply(claim) {
            Some(reply) => after == held && result == reply,
            None => crate::executor::settles(held, key, outcome, result, after),
        },
    ensures
        after.origin() == before.origin(),
        before.last() <= held.last() <= after.last(),
        before.may_read(held.last()),
        crate::executor::claim_reply(claim) is None && outcome is Ok ==> held.may_read(
            after.last(),
        ),
        (result, after@) == before@.execute(
            key.text(),
            ttl,
            held.last(),
            outcome,
            after.last(),
        ),
{
}

/// Executions keep the bound on live claims.
pub proof fn law_executions_keep_live_bound(
    before: MemoryStore,
    key: KeyView,
    ttl: nat,
    claim: Result<ClaimView, StoreErrorView>,
    held: MemoryStore,
    outcome: Result<Seq<u8>, Seq<char>>,
    result: Result<Seq<u8>, IdempotencyErrorView>,
    after: MemoryStore,
)
    requires
        before@.wf(),
        before@.live_within_capacity(before.last()),
        before.claims(key, ttl, claim, &held),
        match crate::executor::claim_reply(claim) {
            Some(reply) => after == held && result == reply,
            None => crate::executor::settles(held, key, outcome, result, after),
        },
    ensures
        after@.live_within_capacity(after.last()),
{
    law_calls_keep_live_bound(before, held, key, ttl, claim, Seq::empty(), Ok(()));
    if crate::executor::claim_reply(claim) is None {
        match outcome {
            Ok(response) => {
                let recorded = choose|recorded: Result<(), StoreErrorView>| #[trigger]
                    held.completes(key, response, recorded, &after);
                law_calls_keep_live_bound(held, after, key, ttl, claim, response, recorded);
            },
            Err(_) => {
                let released = choose|released: Result<(), StoreErrorView>| #[trigger]
                    held.releases(key, released, &after);
                law_calls_keep_live_bound(held, after, key, ttl, claim, Seq::empty(), released);
            },
        }
    }
}

/// A response recorded after its claim was released does not replay: the next
/// claim of the key is the first, unless live claims fill the store.
pub proof fn law_late_response_does_not_replay(
    held: MemoryStore,
    key: KeyView,
    released: Result<(), StoreErrorView>,
    idle: MemoryStore,
    response: Seq<u8>,
    recorded: Result<(), StoreErrorView>,
    done: MemoryStore,
    ttl: nat,
    claim: Result<ClaimView, StoreErrorView>,
    after: MemoryStore,
)
    requires
        held@.wf(),
        held.releases(key, released, &idle),
        idle.completes(key, response, recorded, &done),
        done.claims(key, ttl, claim, &after),
    ensures
        claim == if crate::slots::live_slots(idle@.slots, after.last()).len() < held@.capacity {
            Ok::<ClaimView, StoreErrorView>(ClaimView::First)
        } else {
            Err(StoreErrorView::CapacityExceeded)
        },
{
    law_orphaned_response_is_lapsed(
        idle@,
        key.text(),
        response,
        done.last(),
        ttl,
        after.last(),
    );
}

/// Successes replay: an execution ran its request and settled inside its
/// window, and then every execution of the key before the deadline returns
/// the same response and changes nothing, whatever its own request would
/// have come to, unless the key is completed again or released in between.
pub proof fn law_success_replays(
    s: MemoryView,
    key: Seq<char>,
    ttl: nat,
    claimed_at: nat,
    response: Seq<u8>,
    finished_at: nat,
    ops: Seq<Operation>,
    later_ttl: nat,
    later: nat,
    unused: Result<Seq<u8>, Seq<char>>,
    unused_at: nat,
)
    requires
        s.claim(key, ttl, claimed_at).0 == Ok::<ClaimView, StoreErrorView>(ClaimView::First),
        finished_at < claimed_at + crate::model::window(ttl),
        crate::model::all_spare(ops, key, claimed_at + crate::model::window(ttl)),
        later < claimed_at + crate::model::window(ttl),
    ensures
        ({
            let (reply, done) = s.execute(key, ttl, claimed_at, Ok(response), finished_at);
            let idle = done.run(ops);
            &&& reply == Ok::<Seq<u8>, IdempotencyErrorView>(response)
            &&& idle.execute(key, later_ttl, later, unused, unused_at) == (
                Ok::<Seq<u8>, IdempotencyErrorView>(response),
                idle,
            )
        }),
{
    let held = s.claim(key, ttl, claimed_at).1;
    law_live_slot_survives(held.complete(key, response, finished_at), key, ops);
}

/// Whole executions spare a live slot: those of its key get the slot's answer
/// and change nothing, those of other keys leave it alone. So once a response
/// is recorded, every retry before the deadline replays it, however many
/// executions of whatever keys take place before it.
pub proof fn law_retries_replay(
    s: MemoryView,
    key: Seq<char>,
    executions: Seq<Execution>,
    retry: Execution,
)
    requires
        s.slots.contains_key(key),
        forall|i: int|
            0 <= i < executions.len() ==> (#[trigger] executions[i]).claimed_at
                < s.slots[key].deadline,
        retry.key == key,
        retry.claimed_at < s.slots[key].deadline,
    ensures
        s.run_executions(executions).slots.contains_pair(key, s.slots[key]),
        s.run_executions(executions).executed(retry).1 == s.run_executions(executions),
        match s.slots[key].response {
            Some(response) => s.run_executions(executions).executed(retry).0 == Ok::<
                Seq<u8>,
                IdempotencyErrorView,
            >(response),
            None => s.run_executions(executions).executed(retry).0 == Err::<
                Seq<u8>,
                IdempotencyErrorView,
            >(IdempotencyErrorView::ConcurrentRequest),
        },
    decreases executions.len(),
{
    if executions.len() > 0 {
        let before = executions.drop_last();
        assert forall|i: int| 0 <= i < before.len() implies (#[trigger] before[i]).claimed_at
            < s.slots[key].deadline by {
            assert(before[i] == executions[i]);
        }
        law_retries_replay(s, key, before, retry);
        let last = executions[executions.len() - 1];
        assert(last.claimed_at < s.slots[key].deadline);
        law_claims_evict_nothing_live(
            s.run_executions(before),
            last.key,
            last.ttl,
            last.claimed_at,
            key,
        );
    }
}

/// Errors release: an execution whose request failed reports the failure and
/// leaves the key untracked, and a retry from then on runs its own request.
pub proof fn law_failure_releases(
    s: MemoryView,
    key: Seq<char>,
    ttl: nat,
    claimed_at: nat,
    message: Seq<char>,
    finished_at: nat,
    later_ttl: nat,
    later: nat,
)
    requires
        s.wf(),
        s.claim(key, ttl, claimed_at).0 == Ok::<ClaimView, StoreErrorView>(ClaimView::First),
        claimed_at <= later,
    ensures
        ({
            let (reply, idle) = s.execute(key, ttl, claimed_at, Err(message), finished_at);
            &&& reply == Err::<Seq<u8>, IdempotencyErrorView>(
                IdempotencyErrorView::ExecutionFailed(message),
            )
            &&& !idle.slots.contains_key(key)
            &&& idle.claim(key, later_ttl, later).0 == Ok::<ClaimView, StoreErrorView>(
                ClaimView::First,
            )
        }),
{
    let op = Operation::Claim { key, ttl, now: claimed_at };
    let idle = s.apply(op).release(key);
    law_operations_keep_invariant(s, op);
    law_claim_outcomes(s, key, ttl, claimed_at);
    lemma_no_more_live(s.slots, claimed_at, idle.slots, later);
    law_claim_outcomes(idle, key, later_ttl, later);
}

/// An execution that meets a live, unfinished claim is rejected: it returns
/// that a request is in flight, whatever its own would have come to, and
/// changes nothing.
pub proof fn law_concurrent_execution_is_rejected(
    s: MemoryView,
    key: Seq<char>,
    ttl: nat,
    now: nat,
    unused: Result<Seq<u8>, Seq<char>>,
    unused_at: nat,
)
    requires
        s.is_live(key, now),
        s.slots[key].response is None,
    ensures
        s.execute(key, ttl, now, unused, unused_at) == (
            Err::<Seq<u8>, IdempotencyErrorView>(IdempotencyErrorView::ConcurrentRequest),
            s,
        ),
{
}

/// An execution that finds the store full of live claims, and its key not
/// among them, reports the store's refusal and does not run.
pub proof fn law_refused_execution_reports_the_store(
    s: MemoryView,
    key: Seq<char>,
    ttl: nat,
    now: nat,
    unused: Result<Seq<u8>, Seq<char>>,
    unused_at: nat,
)
    requires
        s.wf(),
        !s.is_live(key, now),
        crate::slots::live_slots(s.slots, now).len() >= s.capacity,
    ensures
        s.execute(key, ttl, now, unused, unused_at).0 == Err::<Seq<u8>, IdempotencyErrorView>(
            IdempotencyErrorView::Store(StoreErrorView::CapacityExceeded),
        ),
        s.execute(key, ttl, now, unused, unused_at).1.slots == crate::slots::live_slots(
            s.slots,
            now,
        ),
{
    law_claim_outcomes(s, key, ttl, now);
    law_refusal_means_full_of_live_claims(s, key, ttl, now);
}

/// The state of a new store and its invariant, in numbers: nothing is
/// tracked, nothing is counted, and the bound is the capacity asked for, or
/// one if that is none.
pub proof fn law_new_state_in_full(capacity: nat, s: MemoryView)
    ensures
        MemoryView::empty(capacity).slots == Map::<Seq<char>, SlotView>::empty(),
        capacity >= 1 ==> MemoryView::empty(capacity).capacity == capacity,
        capacity < 1 ==> MemoryView::empty(capacity).capacity == 1,
        MemoryView::empty(capacity).fresh_inserts == 0,
        s.wf() <==> s.slots.dom().finite() && 1 <= s.capacity && s.fresh_inserts < 1_024,
        SWEEP_EVERY == 1_024,
        DEFAULT_CAPACITY == 65_536,
{
}

/// A store made for some capacity has that very capacity, or one if it is
/// none, and reports it. It tracks nothing. Without a capacity given, it is
/// 65,536.
pub proof fn law_new_stores_in_full(
    capacity: usize,
    store: MemoryStore,
    bound: usize,
    count: usize,
    empty: bool,
    plain: MemoryStore,
    default: MemoryStore,
)
    requires
        call_ensures(MemoryStore::with_capacity, (capacity,), store),
        call_ensures(MemoryStore::capacity, (&store,), bound),
        call_ensures(MemoryStore::len, (&store,), count),
        call_ensures(MemoryStore::is_empty, (&store,), empty),
        call_ensures(MemoryStore::new, (), plain),
        call_ensures(<MemoryStore as Default>::default, (), default),
    ensures
        capacity >= 1 ==> bound == capacity && store@.capacity == capacity,
        capacity < 1 ==> bound == 1 && store@.capacity == 1,
        count == 0,
        empty,
        store@.slots == Map::<Seq<char>, SlotView>::empty(),
        store@.fresh_inserts == 0,
        store.last() == 0,
        plain@.capacity == 65_536,
        plain@.slots == Map::<Seq<char>, SlotView>::empty(),
        plain@.fresh_inserts == 0,
        plain.last() == 0,
        default@ == plain@,
        default.last() == 0,
{
}

/// What a store reports of itself: its bound, how many slots it tracks, and
/// whether it tracks none.
pub proof fn law_reports_in_full(store: &MemoryStore, bound: usize, count: usize, empty: bool)
    requires
        call_ensures(MemoryStore::capacity, (store,), bound),
        call_ensures(MemoryStore::len, (store,), count),
        call_ensures(MemoryStore::is_empty, (store,), empty),
    ensures
        bound == store@.capacity,
        count == store@.slots.dom().len(),
        empty <==> count == 0,
{
}

/// The configured capacity decides: after whatever operations, a claim of a
/// key without a live slot is the first if and only if fewer slots are live
/// than the capacity the store was made with, or than one if that was none.
pub proof fn law_configured_capacity_decides(
    capacity: nat,
    ops: Seq<Operation>,
    key: Seq<char>,
    ttl: nat,
    now: nat,
)
    ensures
        ({
            let s = MemoryView::empty(capacity).run(ops);
            let live = s.slots.dom().filter(|other: Seq<char>| now < s.slots[other].deadline);
            !live.contains(key) ==> s.claim(key, ttl, now).0 == if live.len() < (if capacity < 1 {
                1
            } else {
                capacity
            }) {
                Ok::<ClaimView, StoreErrorView>(ClaimView::First)
            } else {
                Err(StoreErrorView::CapacityExceeded)
            }
        }),
{
    let s = MemoryView::empty(capacity).run(ops);
    law_runs_keep_invariant(MemoryView::empty(capacity), ops);
    law_claim_outcomes(s, key, ttl, now);
    assert(s.slots.dom().filter(|other: Seq<char>| now < s.slots[other].deadline)
        =~= crate::slots::live_slots(s.slots, now).dom());
}

/// A claim, by deadlines alone: what it returns, and what becomes of every
/// slot and of the count of fresh claims.
///
/// A slot with a later deadline answers, and nothing changes. Otherwise, if
/// as many slots as the capacity have a later deadline, the claim is refused
/// and only those stay. Otherwise it is the first, and holds the key from now
/// on for `ttl`, or for a second if that is zero. No slot with a later
/// deadline is touched. One without stays too, except that a fresh claim, one
/// of an untracked key or of one in a store past its capacity, prunes all of
/// them if it is the 1,024th or finds the store at capacity.
pub proof fn law_claim_in_full(s: MemoryView, key: Seq<char>, ttl: nat, now: nat)
    requires
        s.wf(),
    ensures
        ({
            let (result, after) = s.claim(key, ttl, now);
            let live = s.slots.dom().filter(|other: Seq<char>| now < s.slots[other].deadline);
            let window: nat = if ttl == 0 {
                1_000_000_000
            } else {
                ttl
            };
            let fresh = !s.slots.contains_key(key) || s.slots.dom().len() > s.capacity;
            let prunes = fresh && (s.fresh_inserts + 1 >= 1_024 || s.slots.dom().len()
                >= s.capacity);
            if live.contains(key) {
                &&& after == s
                &&& match s.slots[key].response {
                    Some(response) => result == Ok::<ClaimView, StoreErrorView>(
                        ClaimView::Replay(response),
                    ),
                    None => result == Ok::<ClaimView, StoreErrorView>(ClaimView::InFlight),
                }
            } else if live.len() >= s.capacity {
                &&& result == Err::<ClaimView, StoreErrorView>(StoreErrorView::CapacityExceeded)
                &&& after.slots == s.slots.restrict(live)
                &&& after.capacity == s.capacity
                &&& after.fresh_inserts == 0
            } else {
                &&& result == Ok::<ClaimView, StoreErrorView>(ClaimView::First)
                &&& after.slots == (if prunes {
                    s.slots.restrict(live)
                } else {
                    s.slots
                }).insert(key, SlotView { deadline: now + window, response: None })
                &&& after.capacity == s.capacity
                &&& after.fresh_inserts == (if prunes {
                    0
                } else if fresh {
                    s.fresh_inserts + 1
                } else {
                    s.fresh_inserts
                })
            }
        }),
{
    let live = s.slots.dom().filter(|other: Seq<char>| now < s.slots[other].deadline);
    assert(live =~= crate::slots::live_slots(s.slots, now).dom());
    assert(s.slots.restrict(live) =~= crate::slots::live_slots(s.slots, now));
    law_claim_outcomes(s, key, ttl, now);
    lemma_live_slots_finite(s.slots, now);
    if !live.contains(key) {
        lemma_lapsed_slot_is_absent(s, key, now);
        if !s.slots.contains_key(key) {
            assert(s.release(key).slots =~= s.slots);
        }
        if live.len() >= s.capacity {
            law_refusal_means_full_of_live_claims(s, key, ttl, now);
        } else {
            assert(s.release(key).slots.insert(
                key,
                SlotView { deadline: now + crate::model::window(ttl), response: None },
            ) =~= s.slots.insert(
                key,
                SlotView { deadline: now + crate::model::window(ttl), response: None },
            ));
        }
    }
}

/// Completing, releasing and sweeping, by deadlines alone. A response is
/// recorded whole, until the deadline the key's slot has if that is later
/// than now, and until now otherwise. A release forgets the key. A sweep keeps
/// what has a later deadline. Each leaves the rest as it was.
pub proof fn law_other_operations_in_full(
    s: MemoryView,
    key: Seq<char>,
    response: Seq<u8>,
    now: nat,
)
    ensures
        ({
            let done = s.complete(key, response, now);
            let held = s.slots.contains_key(key) && now < s.slots[key].deadline;
            &&& done.slots == s.slots.insert(
                key,
                SlotView {
                    deadline: if held {
                        s.slots[key].deadline
                    } else {
                        now
                    },
                    response: Some(response),
                },
            )
            &&& done.capacity == s.capacity
            &&& done.fresh_inserts == s.fresh_inserts
        }),
        s.release(key).slots == s.slots.remove(key),
        s.release(key).capacity == s.capacity,
        s.release(key).fresh_inserts == s.fresh_inserts,
        s.swept(now).slots == s.slots.restrict(
            s.slots.dom().filter(|other: Seq<char>| now < s.slots[other].deadline),
        ),
        s.swept(now).capacity == s.capacity,
        s.swept(now).fresh_inserts == s.fresh_inserts,
{
    assert(s.swept(now).slots =~= s.slots.restrict(
        s.slots.dom().filter(|other: Seq<char>| now < s.slots[other].deadline),
    ));
}

/// An execution, by what its claim comes to: the first runs the request, then
/// records and returns its response, or releases the key and returns its
/// failure. Any other returns what the claim says and does no more.
pub proof fn law_model_execution_in_full(
    s: MemoryView,
    key: Seq<char>,
    ttl: nat,
    claimed_at: nat,
    outcome: Result<Seq<u8>, Seq<char>>,
    finished_at: nat,
)
    ensures
        ({
            let (claim, held) = s.claim(key, ttl, claimed_at);
            let (result, after) = s.execute(key, ttl, claimed_at, outcome, finished_at);
            match claim {
                Ok(ClaimView::First) => match outcome {
                    Ok(response) => {
                        &&& result == Ok::<Seq<u8>, IdempotencyErrorView>(response)
                        &&& after == held.complete(key, response, finished_at)
                    },
                    Err(message) => {
                        &&& result == Err::<Seq<u8>, IdempotencyErrorView>(
                            IdempotencyErrorView::ExecutionFailed(message),
                        )
                        &&& after == held.release(key)
                    },
                },
                Ok(ClaimView::Replay(response)) => {
                    &&& result == Ok::<Seq<u8>, IdempotencyErrorView>(response)
                    &&& after == held
                },
                Ok(ClaimView::InFlight) => {
                    &&& result == Err::<Seq<u8>, IdempotencyErrorView>(
                        IdempotencyErrorView::ConcurrentRequest,
                    )
                    &&& after == held
                },
                Err(error) => {
                    &&& result == Err::<Seq<u8>, IdempotencyErrorView>(
                        IdempotencyErrorView::Store(error),
                    )
                    &&& after == held
                },
            }
        }),
{
}

/// What the calls that take a reading do to the store: they claim, record and
/// sweep at that very reading, for the key's whole text, the whole window and
/// the whole response. The store's origin and last reading stay.
pub proof fn law_calls_at_a_reading_in_full(
    key: &IdempotencyKey,
    ttl: Span,
    now: Span,
    result: Result<Claim, StoreError>,
    response: Vec<u8>,
)
    ensures
        forall|store: &mut MemoryStore| #[trigger]
            call_ensures(MemoryStore::claim_at, (store, key, ttl, now), result) ==> {
                &&& (match result {
            Ok(Claim::First) => Ok::<ClaimView, StoreErrorView>(ClaimView::First),
            Ok(Claim::Replay(response)) => Ok(ClaimView::Replay(response@)),
            Ok(Claim::InFlight) => Ok(ClaimView::InFlight),
            Err(StoreError::CapacityExceeded) => Err(StoreErrorView::CapacityExceeded),
            Err(StoreError::Backend(diagnostic)) => Err(StoreErrorView::Backend(diagnostic@)),
        }, final(store)@) == store@.claim(
                    key@.scope + seq![':'] + key@.hex,
                    ttl@,
                    now@,
                )
                &&& final(store).origin() == store.origin()
                &&& final(store).last() == store.last()
            },
        forall|store: &mut MemoryStore| #[trigger]
            call_ensures(MemoryStore::complete_at, (store, key, response, now), ()) ==> {
                &&& final(store)@ == store@.complete(
                    key@.scope + seq![':'] + key@.hex,
                    response@,
                    now@,
                )
                &&& final(store).origin() == store.origin()
                &&& final(store).last() == store.last()
            },
        forall|store: &mut MemoryStore| #[trigger]
            call_ensures(MemoryStore::sweep_expired_at, (store, now), ()) ==> {
                &&& final(store)@ == store@.swept(now@)
                &&& final(store).origin() == store.origin()
                &&& final(store).last() == store.last()
            },
{
}

/// What the calls that read the clock do to the store: they claim, record and
/// sweep at the reading they leave behind. That is all of the time, seconds
/// and nanoseconds, which the clock measured since the store's origin, or the
/// last reading if that is later. Recording and releasing always succeed.
pub proof fn law_calls_by_the_clock_in_full(
    key: &IdempotencyKey,
    ttl: Span,
    result: Result<Claim, StoreError>,
    response: Vec<u8>,
    settled: Result<(), StoreError>,
)
    ensures
        forall|store: &mut MemoryStore| #[trigger]
            call_ensures(<MemoryStore as IdempotencyStore>::claim, (store, key, ttl), result) ==> {
                &&& (match result {
            Ok(Claim::First) => Ok::<ClaimView, StoreErrorView>(ClaimView::First),
            Ok(Claim::Replay(response)) => Ok(ClaimView::Replay(response@)),
            Ok(Claim::InFlight) => Ok(ClaimView::InFlight),
            Err(StoreError::CapacityExceeded) => Err(StoreErrorView::CapacityExceeded),
            Err(StoreError::Backend(diagnostic)) => Err(StoreErrorView::Backend(diagnostic@)),
        }, final(store)@) == store@.claim(
                    key@.scope + seq![':'] + key@.hex,
                    ttl@,
                    final(store).last(),
                )
                &&& final(store).origin() == store.origin()
                &&& exists|secs: u64, nanos: u32| #[trigger]
                    store.measures(secs, nanos) && final(store).last() == (if secs * 1_000_000_000
                        + nanos < store.last() {
                        store.last() as int
                    } else {
                        secs * 1_000_000_000 + nanos
                    })
            },
        forall|store: &mut MemoryStore| #[trigger]
            call_ensures(
                <MemoryStore as IdempotencyStore>::complete,
                (store, key, response),
                settled,
            ) ==> {
                &&& settled is Ok
                &&& final(store)@ == store@.complete(
                    key@.scope + seq![':'] + key@.hex,
                    response@,
                    final(store).last(),
                )
                &&& final(store).origin() == store.origin()
                &&& exists|secs: u64, nanos: u32| #[trigger]
                    store.measures(secs, nanos) && final(store).last() == (if secs * 1_000_000_000
                        + nanos < store.last() {
                        store.last() as int
                    } else {
                        secs * 1_000_000_000 + nanos
                    })
            },
        forall|store: &mut MemoryStore| #[trigger]
            call_ensures(<MemoryStore as IdempotencyStore>::release, (store, key), settled) ==> {
                &&& settled is Ok
                &&& final(store)@ == store@.release(key@.scope + seq![':'] + key@.hex)
                &&& final(store).origin() == store.origin()
                &&& final(store).last() == store.last()
            },
        forall|store: &mut MemoryStore| #[trigger]
            call_ensures(MemoryStore::sweep_expired, (store,), ()) ==> {
                &&& final(store)@ == store@.swept(final(store).last())
                &&& final(store).origin() == store.origin()
                &&& exists|secs: u64, nanos: u32| #[trigger]
                    store.measures(secs, nanos) && final(store).last() == (if secs * 1_000_000_000
                        + nanos < store.last() {
                        store.last() as int
                    } else {
                        secs * 1_000_000_000 + nanos
                    })
            },
{
}

/// Windows lapse with the time elapsed. A call that claims a key was the
/// first; the next call that claims it is the first again if the clock then
/// measured, since the store's origin, at least the window more than the first
/// call's reading, and is told that the request is in flight if it measured
/// less. The window is the TTL, or a second if that is zero.
pub proof fn law_windows_lapse_with_the_time_elapsed(
    key: &IdempotencyKey,
    ttl: Span,
    later_ttl: Span,
    first: Result<Claim, StoreError>,
    second: Result<Claim, StoreError>,
)
    requires
        first == Ok::<Claim, StoreError>(Claim::First),
    ensures
        forall|store: &mut MemoryStore, next: &mut MemoryStore|
            #![trigger call_ensures(<MemoryStore as IdempotencyStore>::claim, (store, key, ttl), first), call_ensures(<MemoryStore as IdempotencyStore>::claim, (next, key, later_ttl), second)]
            store@.wf() && call_ensures(
                <MemoryStore as IdempotencyStore>::claim,
                (store, key, ttl),
                first,
            ) && *next == *final(store) && call_ensures(
                <MemoryStore as IdempotencyStore>::claim,
                (next, key, later_ttl),
                second,
            ) ==> exists|secs: u64, nanos: u32| #[trigger]
                next.measures(secs, nanos) && {
                    let elapsed = secs * 1_000_000_000 + nanos;
                    let deadline = final(store).last() + if ttl@ == 0 {
                        1_000_000_000
                    } else {
                        ttl@ as int
                    };
                    &&& elapsed >= deadline ==> second == Ok::<Claim, StoreError>(Claim::First)
                    &&& elapsed < deadline ==> second == Ok::<Claim, StoreError>(Claim::InFlight)
                },
{
    assert forall|store: &mut MemoryStore, next: &mut MemoryStore|
        #![trigger call_ensures(<MemoryStore as IdempotencyStore>::claim, (store, key, ttl), first), call_ensures(<MemoryStore as IdempotencyStore>::claim, (next, key, later_ttl), second)]
        store@.wf() && call_ensures(
            <MemoryStore as IdempotencyStore>::claim,
            (store, key, ttl),
            first,
        ) && *next == *final(store) && call_ensures(
            <MemoryStore as IdempotencyStore>::claim,
            (next, key, later_ttl),
            second,
        ) implies exists|secs: u64, nanos: u32| #[trigger]
        next.measures(secs, nanos) && {
            let elapsed = secs * 1_000_000_000 + nanos;
            let deadline = final(store).last() + if ttl@ == 0 {
                1_000_000_000
            } else {
                ttl@ as int
            };
            &&& elapsed >= deadline ==> second == Ok::<Claim, StoreError>(Claim::First)
            &&& elapsed < deadline ==> second == Ok::<Claim, StoreError>(Claim::InFlight)
        } by {
        law_calls_by_the_clock_in_full(key, ttl, first, arbitrary(), arbitrary());
        law_calls_by_the_clock_in_full(key, later_ttl, second, arbitrary(), arbitrary());
        let text = key@.text();
        let now = final(store).last();
        let later = final(next).last();
        let held = next@;
        law_claim_outcomes(store@, text, ttl@, now);
        law_operations_keep_invariant(store@, Operation::Claim { key: text, ttl: ttl@, now });
        assert(held.slots.contains_key(text));
        let (secs, nanos) = choose|secs: u64, nanos: u32| #[trigger]
            next.measures(secs, nanos) && later == (if secs * 1_000_000_000 + nanos
                < next.last() {
                next.last() as int
            } else {
                secs * 1_000_000_000 + nanos
            });
        if later >= held.slots[text].deadline {
            lemma_no_more_live(store@.slots, now, held.slots, later);
            law_claim_outcomes(held, text, later_ttl@, later);
        }
        assert(next.measures(secs, nanos));
    }
}

/// What an execution leaves in the store. One that returned a response leaves
/// exactly that response under the key. One whose request failed leaves the
/// key untracked.
pub proof fn law_executions_settle<F: FnOnce() -> Result<Vec<u8>, String>>(
    key: &IdempotencyKey,
    ttl: Span,
    f: F,
    result: Result<Vec<u8>, IdempotencyError>,
)
    ensures
        forall|store: &mut MemoryStore| #[trigger]
            call_ensures(
                IdempotencyExecutor::execute::<MemoryStore, F>,
                (store, key, ttl, f),
                result,
            ) ==> {
                let text = key@.scope + seq![':'] + key@.hex;
                &&& result matches Ok(response) ==> final(store)@.slots.contains_key(text)
                    && final(store)@.slots[text].response == Some(response@)
                &&& result matches Err(IdempotencyError::ExecutionFailed(_))
                    ==> !final(store)@.slots.contains_key(text)
            },
{
    assert forall|store: &mut MemoryStore| #[trigger]
        call_ensures(
            IdempotencyExecutor::execute::<MemoryStore, F>,
            (store, key, ttl, f),
            result,
        ) implies {
        let text = key@.scope + seq![':'] + key@.hex;
        &&& result matches Ok(response) ==> final(store)@.slots.contains_key(text)
            && final(store)@.slots[text].response == Some(response@)
        &&& result matches Err(IdempotencyError::ExecutionFailed(_))
            ==> !final(store)@.slots.contains_key(text)
    } by {
        crate::executor::law_execution_in_full::<MemoryStore, F>(key, ttl, f, result);
    }
}

/// Exactly-once response: once an execution has returned a response, the next
/// one of the key returns the same response, if it is over before the slot's
/// deadline, whatever its own request, and changes no slot.
pub proof fn law_executions_replay<
    F: FnOnce() -> Result<Vec<u8>, String>,
    G: FnOnce() -> Result<Vec<u8>, String>,
>(
    key: &IdempotencyKey,
    ttl: Span,
    f: F,
    response: Vec<u8>,
    later_ttl: Span,
    g: G,
    result: Result<Vec<u8>, IdempotencyError>,
)
    ensures
        forall|store: &mut MemoryStore, next: &mut MemoryStore|
            #![trigger call_ensures(IdempotencyExecutor::execute::<MemoryStore, F>, (store, key, ttl, f), Ok::<Vec<u8>, IdempotencyError>(response)), call_ensures(IdempotencyExecutor::execute::<MemoryStore, G>, (next, key, later_ttl, g), result)]
            call_ensures(
                IdempotencyExecutor::execute::<MemoryStore, F>,
                (store, key, ttl, f),
                Ok::<Vec<u8>, IdempotencyError>(response),
            ) && *next == *final(store) && call_ensures(
                IdempotencyExecutor::execute::<MemoryStore, G>,
                (next, key, later_ttl, g),
                result,
            ) && final(next).last() < next@.slots[key@.scope + seq![':'] + key@.hex].deadline ==> {
                &&& result matches Ok(replayed)
                &&& replayed@ == response@
                &&& final(next)@ == next@
            },
{
    assert forall|store: &mut MemoryStore, next: &mut MemoryStore|
        #![trigger call_ensures(IdempotencyExecutor::execute::<MemoryStore, F>, (store, key, ttl, f), Ok::<Vec<u8>, IdempotencyError>(response)), call_ensures(IdempotencyExecutor::execute::<MemoryStore, G>, (next, key, later_ttl, g), result)]
        call_ensures(
            IdempotencyExecutor::execute::<MemoryStore, F>,
            (store, key, ttl, f),
            Ok::<Vec<u8>, IdempotencyError>(response),
        ) && *next == *final(store) && call_ensures(
            IdempotencyExecutor::execute::<MemoryStore, G>,
            (next, key, later_ttl, g),
            result,
        ) && final(next).last() < next@.slots[key@.scope + seq![':'] + key@.hex].deadline implies {
        &&& result matches Ok(replayed)
        &&& replayed@ == response@
        &&& final(next)@ == next@
    } by {
        law_executions_settle::<F>(key, ttl, f, Ok(response));
        crate::executor::law_execution_in_full::<MemoryStore, G>(key, later_ttl, g, result);
        let text = key@.scope + seq![':'] + key@.hex;
        assert(next@.slots.contains_key(text));
        assert(next@.slots[text].response == Some(response@));
    }
}

} // verus!
