//! In-process idempotency store.

use crate::error::{StoreError, StoreErrorView};
use crate::key::{IdempotencyKey, KeyView};
use crate::model::{MemoryView, SWEEP_EVERY};
use crate::slots::{
    drop_slot, find_slot, new_slots, put_slot, retain_live, slot_count, Slot, SlotView,
};
use crate::span::{Span, NANOS_PER_SEC};
use crate::store::{Claim, ClaimView, IdempotencyStore};
use dashmap::DashMap;
use std::time::Instant;
use vstd::prelude::*;

verus! {

/// Default capacity: 65,536 concurrently-tracked claims.
pub const DEFAULT_CAPACITY: usize = 65_536;

/// A reading of std's monotonic clock.
#[verifier::external_type_specification]
#[verifier::external_body]
pub struct ExInstant(std::time::Instant);

/// Calls `Instant::now`. Trusted, with nothing claimed of the reading.
#[verifier::external_body]
fn clock_now() -> (reading: Instant) {
    Instant::now()
}

/// Calls `Instant::elapsed` and takes the seconds and the sub-second
/// nanoseconds of the outcome. Trusted: the latter are less than one second.
/// How much time has passed is up to the clock.
#[verifier::external_body]
pub(crate) fn time_since(start: &Instant) -> (elapsed: (u64, u32))
    ensures
        elapsed.1 < 1_000_000_000,
{
    let elapsed = start.elapsed();
    (elapsed.as_secs(), elapsed.subsec_nanos())
}

/// Process-local [`IdempotencyStore`] backed by a sharded concurrent map.
///
/// # Semantics (fail-closed)
///
/// Capacity is bounded: the store tracks at most [`MemoryStore::capacity`]
/// live claims. Expired entries are pruned lazily: a sweep runs every 1,024
/// fresh claims, and is forced whenever the store is at capacity. If every
/// tracked claim is still inside its TTL window, `claim` returns
/// [`StoreError::CapacityExceeded`] rather than forgetting a claim.
///
/// Forgetting a held claim would admit a duplicate execution of a request
/// that may still be mid-flight somewhere else; rejecting new claims is the
/// safe failure mode. Callers that hit this error should shed load or fail
/// the request.
///
/// Two deliberate asymmetries:
///
/// - `complete` never fails closed. A computed response that cannot be
///   recorded is wasted work and would force the next caller to re-execute
///   side effects, so `complete` upserts even past the soft capacity bound.
///   A slot it adds for an untracked key has lapsed, so it is no live claim.
/// - A claim whose deadline passed is reclaimable (`Claim::First` again):
///   the TTL window is the contract, and the deadline is enforced lazily
///   on access. In a store past the soft bound an expired slot counts as
///   absent, and a claim of its key is admitted like one of an untracked
///   key: only if fewer claims are live than the capacity.
///
/// A zero TTL is floored to one second, so that no claim expires at the
/// instant it is made.
///
/// Every operation borrows the store exclusively, which makes it atomic;
/// callers on several threads share the store behind a lock.
#[derive(Debug)]
pub struct MemoryStore {
    slots: DashMap<String, Slot>,
    capacity: usize,
    fresh_inserts_since_sweep: usize,
    /// When the store was created: deadlines count from here.
    created: Instant,
    /// The last reading of the clock: the next is not earlier.
    last: Span,
}

impl View for MemoryStore {
    type V = MemoryView;

    closed spec fn view(&self) -> MemoryView {
        MemoryView {
            slots: crate::slots::tracked_slots(self.slots),
            capacity: self.capacity as nat,
            fresh_inserts: self.fresh_inserts_since_sweep as nat,
        }
    }
}

impl MemoryStore {
    /// The instant from which the store's clock and deadlines count.
    pub closed spec fn origin(&self) -> Instant {
        self.created
    }

    /// The last reading of the store's clock, in nanoseconds since the store
    /// was created. The functions that take a reading leave it alone.
    pub closed spec fn last(&self) -> nat {
        self.last@
    }

    /// Create a store with the default capacity of [`DEFAULT_CAPACITY`].
    #[must_use]
    pub fn new() -> (store: Self)
        ensures
            store@ == MemoryView::empty(DEFAULT_CAPACITY as nat),
            store@.capacity == 65_536,
            store@.wf(),
            store.last() == 0,
    {
        Self::with_capacity(DEFAULT_CAPACITY)
    }

    /// Create a store with an explicit capacity bound (minimum 1).
    #[must_use]
    pub fn with_capacity(capacity: usize) -> (store: Self)
        ensures
            store@ == MemoryView::empty(capacity as nat),
            capacity >= 1 ==> store@.capacity == capacity,
            capacity < 1 ==> store@.capacity == 1,
            store@.slots == Map::<Seq<char>, SlotView>::empty(),
            store@.wf(),
            store.last() == 0,
    {
        let store = MemoryStore {
            slots: new_slots(),
            capacity: if capacity < 1 {
                1
            } else {
                capacity
            },
            fresh_inserts_since_sweep: 0,
            created: clock_now(),
            last: Span::from_secs(0),
        };
        assert(store@.slots =~= Map::empty());
        store
    }

    /// The configured capacity bound.
    #[must_use]
    pub fn capacity(&self) -> (capacity: usize)
        ensures
            capacity == self@.capacity,
    {
        self.capacity
    }

    /// Number of tracked slots (may include not-yet-pruned expired entries).
    #[must_use]
    pub fn len(&self) -> (count: usize)
        ensures
            count == self@.slots.len(),
    {
        slot_count(&self.slots)
    }

    /// Whether no slots are tracked.
    #[must_use]
    pub fn is_empty(&self) -> (empty: bool)
        ensures
            empty == (self@.slots.len() == 0),
    {
        self.len() == 0
    }

    /// Whether the clock may measure `secs` seconds and `nanos` nanoseconds as
    /// the time elapsed since the store's origin.
    pub closed spec fn measures(&self, secs: u64, nanos: u32) -> bool {
        call_ensures(time_since, (&self.created,), (secs, nanos))
    }

    /// Whether the store's clock may read `now` next: the clock may have
    /// measured that many nanoseconds since the store was created, or fewer
    /// than the last reading, which then stands.
    pub open spec fn may_read(&self, now: nat) -> bool {
        exists|secs: u64, nanos: u32| #[trigger]
            self.measures(secs, nanos) && now == (if secs * 1_000_000_000 + nanos < self.last() {
                self.last() as int
            } else {
                secs * 1_000_000_000 + nanos
            })
    }

    /// What is measured is what the clock call returns for the store's origin,
    /// seconds and nanoseconds alike, and nothing else.
    pub(crate) proof fn law_clock_measures_from_the_origin(&self, secs: u64, nanos: u32)
        ensures
            self.measures(secs, nanos) <==> call_ensures(
                time_since,
                (&self.origin(),),
                (secs, nanos),
            ),
            self.measures(secs, nanos) ==> nanos < 1_000_000_000,
    {
    }

    /// Reading the clock yields all of the time that the clock call returned
    /// for the store's origin, or the last reading if that is later, and keeps
    /// it as the last reading.
    pub(crate) proof fn law_readings_are_the_elapsed_time(now: Span)
        ensures
            forall|store: &mut Self| #[trigger]
                call_ensures(Self::now, (store,), now) ==> final(store).last() == now@ && exists|
                    secs: u64,
                    nanos: u32,
                | #[trigger]
                    call_ensures(time_since, (&store.origin(),), (secs, nanos)) && now@ == (if secs
                        * 1_000_000_000 + nanos < store.last() {
                        store.last() as int
                    } else {
                        secs * 1_000_000_000 + nanos
                    }),
    {
        assert forall|store: &mut Self| #[trigger] call_ensures(Self::now, (store,), now) implies
            final(store).last() == now@ && exists|secs: u64, nanos: u32| #[trigger]
            call_ensures(time_since, (&store.origin(),), (secs, nanos)) && now@ == (if secs
                * 1_000_000_000 + nanos < store.last() {
                store.last() as int
            } else {
                secs * 1_000_000_000 + nanos
            }) by {
            let (secs, nanos) = choose|secs: u64, nanos: u32| #[trigger]
                store.measures(secs, nanos) && now@ == (if secs * 1_000_000_000 + nanos
                    < store.last() {
                    store.last() as int
                } else {
                    secs * 1_000_000_000 + nanos
                });
            assert(call_ensures(time_since, (&store.origin(),), (secs, nanos)));
        }
    }

    /// The clock goes by the origin and the last reading: two stores that
    /// agree on these may read the same times next.
    pub proof fn law_clock_follows_origin(&self, other: &Self, now: nat)
        requires
            self.origin() == other.origin(),
            self.last() == other.last(),
        ensures
            self.may_read(now) == other.may_read(now),
    {
        assert(forall|secs: u64, nanos: u32|
            #![trigger self.measures(secs, nanos)]
            #![trigger other.measures(secs, nanos)]
            self.measures(secs, nanos) == other.measures(secs, nanos));
    }

    /// The clock is monotonic: no reading is earlier than the last.
    pub proof fn law_clock_is_monotonic(&self, now: nat)
        requires
            self.may_read(now),
        ensures
            self.last() <= now,
    {
    }

    /// Read the clock: the time since the store was created.
    pub(crate) fn now(&mut self) -> (now: Span)
        ensures
            old(self).may_read(now@),
            old(self).last() <= now@,
            final(self).last() == now@,
            final(self).origin() == old(self).origin(),
            final(self)@ == old(self)@,
    {
        let (secs, nanos) = time_since(&self.created);
        assert(self.measures(secs, nanos));
        let reading = Span::new(secs, nanos);
        if reading.as_nanos() >= self.last.as_nanos() {
            self.last = reading;
        }
        self.last
    }

    /// Drop every slot that has expired by now, immediately (tests and
    /// administrative callers; claims prune lazily).
    pub fn sweep_expired(&mut self)
        requires
            old(self)@.wf(),
        ensures
            final(self)@ == old(self)@.swept(final(self).last()),
            final(self)@.wf(),
            old(self).may_read(final(self).last()),
            old(self).last() <= final(self).last(),
            final(self).origin() == old(self).origin(),
    {
        let now = self.now();
        self.sweep_expired_at(now);
    }

    /// Drop every slot that has expired at `now`, a time since the store was
    /// created.
    pub fn sweep_expired_at(&mut self, now: Span)
        requires
            old(self)@.wf(),
        ensures
            final(self)@ == old(self)@.swept(now@),
            final(self)@.wf(),
            final(self).origin() == old(self).origin(),
            final(self).last() == old(self).last(),
    {
        retain_live(&mut self.slots, now.as_nanos());
        assert(self@.slots.dom() =~= old(self)@.slots.dom().intersect(self@.slots.dom()));
    }

    /// Sweep on the fresh-claim path: every 1,024 fresh claims, and always
    /// when the store is at capacity.
    fn maybe_sweep(&mut self, now: Span)
        requires
            old(self)@.wf(),
        ensures
            final(self)@ == old(self)@.maybe_swept(now@),
            final(self)@.wf(),
            final(self).origin() == old(self).origin(),
            final(self).last() == old(self).last(),
    {
        let inserts: usize = self.fresh_inserts_since_sweep + 1;
        if inserts >= SWEEP_EVERY || slot_count(&self.slots) >= self.capacity {
            self.sweep_expired_at(now);
            self.fresh_inserts_since_sweep = 0;
        } else {
            self.fresh_inserts_since_sweep = inserts;
        }
    }

    /// Decide a claim on a slot found for `key`: a live slot answers without
    /// a change, an expired one is reclaimed in place.
    fn claim_tracked(
        &mut self,
        key: &IdempotencyKey,
        slot: Slot,
        now: u128,
        deadline: u128,
    ) -> (claim: Claim)
        requires
            old(self)@.wf(),
            old(self)@.slots.contains_pair(key@.text(), slot@),
        ensures
            (Ok::<ClaimView, StoreErrorView>(claim@), final(self)@) == old(self)@.claim_entry(
                key@.text(),
                now as nat,
                deadline as nat,
            ),
            final(self)@.wf(),
            final(self).origin() == old(self).origin(),
            final(self).last() == old(self).last(),
    {
        if slot.is_live(now) {
            return slot.answer();
        }
        put_slot(&mut self.slots, key.as_str(), Slot::Claimed { deadline });
        Claim::First
    }

    /// Decide a claim of `key`, which is not tracked, at whatever time: its
    /// entry is filled, and given up again if that takes the store past its
    /// capacity.
    fn claim_vacant(&mut self, key: &IdempotencyKey, deadline: u128) -> (result: Result<
        Claim,
        StoreError,
    >)
        requires
            old(self)@.wf(),
            !old(self)@.slots.contains_key(key@.text()),
        ensures
            forall|now: nat|
                (crate::store::claim_result(result), final(self)@)
                    == #[trigger] old(self)@.claim_entry(key@.text(), now, deadline as nat),
            final(self)@.wf(),
            final(self).origin() == old(self).origin(),
            final(self).last() == old(self).last(),
    {
        put_slot(&mut self.slots, key.as_str(), Slot::Claimed { deadline });
        if slot_count(&self.slots) > self.capacity {
            drop_slot(&mut self.slots, key.as_str());
            assert(self@.slots =~= old(self)@.slots);
            return Err(StoreError::CapacityExceeded);
        }
        Ok(Claim::First)
    }

    /// Atomically claim `key` for `ttl` at `now`, a time since the store was
    /// created.
    ///
    /// A live slot decides the outcome and changes nothing. An expired one is
    /// reclaimed, unless the store is past its capacity: there it counts as
    /// absent. A claim for an absent key sweeps when a sweep is due and is
    /// then admitted, unless the store is full of live claims. Deadlines are
    /// wide enough for every window at every time. A zero `ttl` is
    /// floored to one second.
    pub fn claim_at(&mut self, key: &IdempotencyKey, ttl: Span, now: Span) -> (result: Result<
        Claim,
        StoreError,
    >)
        requires
            old(self)@.wf(),
        ensures
            (crate::store::claim_result(result), final(self)@) == old(self)@.claim(
                key@.text(),
                ttl@,
                now@,
            ),
            final(self)@.wf(),
            final(self).origin() == old(self).origin(),
            final(self).last() == old(self).last(),
    {
        let now_nanos: u128 = now.as_nanos();
        let ttl_nanos: u128 = ttl.as_nanos();
        let window: u128 = if ttl_nanos == 0 {
            NANOS_PER_SEC as u128
        } else {
            ttl_nanos
        };
        let deadline: u128 = now_nanos + window;
        if let Some(slot) = find_slot(&self.slots, key.as_str()) {
            if slot.is_live(now_nanos) || slot_count(&self.slots) <= self.capacity {
                return Ok(self.claim_tracked(key, slot, now_nanos, deadline));
            }
            drop_slot(&mut self.slots, key.as_str());
        }
        assert(self@ == old(self)@.release(key@.text())) by {
            assert(self@.slots =~= old(self)@.slots.remove(key@.text()));
        }
        self.maybe_sweep(now);
        self.claim_vacant(key, deadline)
    }

    /// Record the response for `key` at `now`, a time since the store was
    /// created.
    ///
    /// The response is replayable for exactly as long as the claim would have
    /// lived. If the claim was released or swept before, or has lapsed, the
    /// response is recorded with a lapsed window: it does not replay, and it
    /// holds no room that a claim needs.
    pub fn complete_at(&mut self, key: &IdempotencyKey, response: Vec<u8>, now: Span)
        requires
            old(self)@.wf(),
        ensures
            final(self)@ == old(self)@.complete(key@.text(), response@, now@),
            final(self)@.wf(),
            final(self).origin() == old(self).origin(),
            final(self).last() == old(self).last(),
    {
        let now_nanos: u128 = now.as_nanos();
        let deadline = match find_slot(&self.slots, key.as_str()) {
            Some(slot) => {
                if slot.is_live(now_nanos) {
                    slot.deadline()
                } else {
                    now_nanos
                }
            },
            None => now_nanos,
        };
        put_slot(&mut self.slots, key.as_str(), Slot::Done { deadline, response });
    }
}

impl Default for MemoryStore {
    fn default() -> (store: Self)
        ensures
            store@ == MemoryView::empty(DEFAULT_CAPACITY as nat),
            store@.capacity == 65_536,
            store@.wf(),
            store.last() == 0,
    {
        Self::new()
    }
}

impl IdempotencyStore for MemoryStore {
    open spec fn wf(&self) -> bool {
        self@.wf()
    }

    /// The claim takes place at the clock reading it leaves.
    open spec fn claims(
        &self,
        key: KeyView,
        ttl: nat,
        result: Result<ClaimView, StoreErrorView>,
        after: &Self,
    ) -> bool {
        &&& after.origin() == self.origin()
        &&& self.may_read(after.last())
        &&& self.last() <= after.last()
        &&& (result, after@) == self@.claim(key.text(), ttl, after.last())
    }

    /// Recording a response always succeeds, at the clock reading it leaves.
    open spec fn completes(
        &self,
        key: KeyView,
        response: Seq<u8>,
        result: Result<(), StoreErrorView>,
        after: &Self,
    ) -> bool {
        &&& result is Ok
        &&& after.origin() == self.origin()
        &&& self.may_read(after.last())
        &&& self.last() <= after.last()
        &&& after@ == self@.complete(key.text(), response, after.last())
    }

    /// Releasing always succeeds, and reads no clock.
    open spec fn releases(
        &self,
        key: KeyView,
        result: Result<(), StoreErrorView>,
        after: &Self,
    ) -> bool {
        &&& result is Ok
        &&& after.origin() == self.origin()
        &&& after.last() == self.last()
        &&& after@ == self@.release(key.text())
    }

    fn claim(&mut self, key: &IdempotencyKey, ttl: Span) -> (result: Result<Claim, StoreError>) {
        let now = self.now();
        self.claim_at(key, ttl, now)
    }

    fn complete(&mut self, key: &IdempotencyKey, response: Vec<u8>) -> (result: Result<
        (),
        StoreError,
    >) {
        let now = self.now();
        self.complete_at(key, response, now);
        Ok(())
    }

    fn release(&mut self, key: &IdempotencyKey) -> (result: Result<(), StoreError>) {
        drop_slot(&mut self.slots, key.as_str());
        Ok(())
    }
}

} // verus!
