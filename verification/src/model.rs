//! The in-process store as a mathematical state and its transitions.

use crate::error::{IdempotencyErrorView, StoreErrorView};
use crate::slots::SlotView;
use crate::span::NANOS_PER_SEC;
use crate::store::ClaimView;
use vstd::prelude::*;

verus! {

/// Every this many fresh claims a full expiry sweep runs. One also runs
/// whenever a fresh claim finds the store at capacity.
pub const SWEEP_EVERY: usize = 1024;

/// The window of a claim made for `ttl` nanoseconds: `ttl` itself, but one
/// second for none at all, so that no claim expires at the instant it is
/// made.
pub open spec fn window(ttl: nat) -> nat {
    if ttl == 0 {
        NANOS_PER_SEC as nat
    } else {
        ttl
    }
}

/// The mathematical value of a [`MemoryStore`](crate::MemoryStore).
pub struct MemoryView {
    /// The tracked slots, expired ones not yet pruned among them, by the text
    /// of their keys.
    pub slots: Map<Seq<char>, SlotView>,
    /// The capacity bound.
    pub capacity: nat,
    /// Fresh claims since the last of them that swept.
    pub fresh_inserts: nat,
}

impl MemoryView {
    /// The internal invariant.
    pub open spec fn wf(self) -> bool {
        &&& self.slots.dom().finite()
        &&& 1 <= self.capacity
        &&& self.fresh_inserts < SWEEP_EVERY
    }

    /// An empty store with the given capacity bound, which is at least one.
    pub open spec fn empty(capacity: nat) -> Self {
        MemoryView {
            slots: Map::empty(),
            capacity: if capacity < 1 {
                1
            } else {
                capacity
            },
            fresh_inserts: 0,
        }
    }

    /// Whether `key` has a slot that is live at `now`.
    pub open spec fn is_live(self, key: Seq<char>, now: nat) -> bool {
        self.slots.contains_key(key) && self.slots[key].is_live(now)
    }

    /// Whether no more slots are live than the capacity, at `from` or at any
    /// later time.
    pub open spec fn live_within_capacity(self, from: nat) -> bool {
        forall|now: nat|
            from <= now ==> #[trigger] crate::slots::live_slots(self.slots, now).len()
                <= self.capacity
    }

    /// Whether a claim of `key` at `now` is decided on a slot found for it: a
    /// live slot, or an expired one of a store within its capacity. In a
    /// store past its capacity an expired slot counts as absent.
    pub open spec fn decides_in_place(self, key: Seq<char>, now: nat) -> bool {
        self.slots.contains_key(key) && (self.is_live(key, now) || self.slots.len()
            <= self.capacity)
    }

    /// The store with every slot expired at `now` dropped.
    pub open spec fn swept(self, now: nat) -> Self {
        MemoryView { slots: crate::slots::live_slots(self.slots, now), ..self }
    }

    /// Whether the next fresh claim sweeps first: it is the
    /// last of [`SWEEP_EVERY`], or the store is at capacity.
    pub open spec fn sweep_due(self) -> bool {
        self.fresh_inserts + 1 >= SWEEP_EVERY || self.slots.len() >= self.capacity
    }

    /// The store after the sweep that a fresh claim makes when one is due. The sweep resets the counter; otherwise the claim is
    /// counted.
    pub open spec fn maybe_swept(self, now: nat) -> Self {
        if self.sweep_due() {
            MemoryView { fresh_inserts: 0, ..self.swept(now) }
        } else {
            MemoryView { fresh_inserts: self.fresh_inserts + 1, ..self }
        }
    }

    /// The store with an unfinished claim on `key` until `deadline`.
    pub open spec fn with_claim(self, key: Seq<char>, deadline: nat) -> Self {
        MemoryView {
            slots: self.slots.insert(key, SlotView { deadline, response: None }),
            ..self
        }
    }

    /// A claim decided on the entry of `key`: a live slot answers, an expired
    /// one is reclaimed in place, and a vacant entry is filled if that keeps
    /// the store within its capacity.
    pub open spec fn claim_entry(self, key: Seq<char>, now: nat, deadline: nat) -> (
        Result<ClaimView, StoreErrorView>,
        Self,
    ) {
        if self.is_live(key, now) {
            (Ok(self.slots[key].answer()), self)
        } else if self.slots.contains_key(key) || self.slots.len() < self.capacity {
            (Ok(ClaimView::First), self.with_claim(key, deadline))
        } else {
            (Err(StoreErrorView::CapacityExceeded), self)
        }
    }

    /// A claim of `key` at `now` for `ttl`: what it returns and the state it
    /// leaves. Only a fresh claim, one not decided on a slot found for the
    /// key, may sweep.
    pub open spec fn claim(self, key: Seq<char>, ttl: nat, now: nat) -> (
        Result<ClaimView, StoreErrorView>,
        Self,
    ) {
        if self.decides_in_place(key, now) {
            self.claim_entry(key, now, now + window(ttl))
        } else {
            self.release(key).maybe_swept(now).claim_entry(key, now, now + window(ttl))
        }
    }

    /// The store after the response to `key` was recorded at `now`. The
    /// response keeps the claim's window; without a claim, or after the
    /// claim lapsed, it is recorded with a window that has lapsed too.
    pub open spec fn complete(self, key: Seq<char>, response: Seq<u8>, now: nat) -> Self {
        let deadline = if self.is_live(key, now) {
            self.slots[key].deadline
        } else {
            now
        };
        MemoryView {
            slots: self.slots.insert(key, SlotView { deadline, response: Some(response) }),
            ..self
        }
    }

    /// The store after `key` was released.
    pub open spec fn release(self, key: Seq<char>) -> Self {
        MemoryView { slots: self.slots.remove(key), ..self }
    }
}

/// One operation on the store, with the reading of the clock it saw.
pub enum Operation {
    Claim { key: Seq<char>, ttl: nat, now: nat },
    Complete { key: Seq<char>, response: Seq<u8>, now: nat },
    Release { key: Seq<char> },
    Sweep { now: nat },
}

impl Operation {
    /// Whether the operation leaves a slot of `key` alone that is live until
    /// `deadline`: it does not complete or release `key`, and it takes place
    /// before the deadline. It may well claim `key`.
    pub open spec fn spares(self, key: Seq<char>, deadline: nat) -> bool {
        match self {
            Operation::Claim { now, .. } => now < deadline,
            Operation::Complete { key: other, .. } => other != key,
            Operation::Release { key: other } => other != key,
            Operation::Sweep { now } => now < deadline,
        }
    }

    /// Whether the operation takes place at `now` at the latest. A release
    /// does not read the clock.
    pub open spec fn not_after(self, now: nat) -> bool {
        match self {
            Operation::Claim { now: at, .. } => at <= now,
            Operation::Complete { now: at, .. } => at <= now,
            Operation::Release { .. } => true,
            Operation::Sweep { now: at } => at <= now,
        }
    }

    /// Whether the operation reads the time `now`, if it reads the clock at
    /// all.
    pub open spec fn reads(self, now: nat) -> bool {
        match self {
            Operation::Claim { now: at, .. } => at == now,
            Operation::Complete { now: at, .. } => at == now,
            Operation::Release { .. } => true,
            Operation::Sweep { now: at } => at == now,
        }
    }
}

/// Whether the operations read the clock at the given times, one for each,
/// and these do not decrease.
pub open spec fn read_in_order(ops: Seq<Operation>, times: Seq<nat>) -> bool {
    &&& ops.len() == times.len()
    &&& forall|i: int| 0 <= i < ops.len() ==> (#[trigger] ops[i]).reads(times[i])
    &&& forall|i: int, j: int|
        0 <= i <= j < times.len() ==> #[trigger] times[i] <= #[trigger] times[j]
}

/// Whether every operation leaves a slot of `key` alone that is live until
/// `deadline`.
pub open spec fn all_spare(ops: Seq<Operation>, key: Seq<char>, deadline: nat) -> bool {
    forall|i: int| 0 <= i < ops.len() ==> (#[trigger] ops[i]).spares(key, deadline)
}

/// One execution of a request: its key and window, when the key was claimed,
/// what the request comes to if it is run, and when it is settled then.
pub struct Execution {
    pub key: Seq<char>,
    pub ttl: nat,
    pub claimed_at: nat,
    pub outcome: Result<Seq<u8>, Seq<char>>,
    pub finished_at: nat,
}

impl MemoryView {
    /// The state after one operation.
    pub open spec fn apply(self, op: Operation) -> Self {
        match op {
            Operation::Claim { key, ttl, now } => self.claim(key, ttl, now).1,
            Operation::Complete { key, response, now } => self.complete(key, response, now),
            Operation::Release { key } => self.release(key),
            Operation::Sweep { now } => self.swept(now),
        }
    }

    /// The state after a sequence of operations.
    pub open spec fn run(self, ops: Seq<Operation>) -> Self
        decreases ops.len(),
    {
        if ops.len() == 0 {
            self
        } else {
            self.run(ops.drop_last()).apply(ops.last())
        }
    }

    /// Whether the operation is a fresh claim: one for a key that is not
    /// tracked, or whose expired slot counts as absent.
    pub open spec fn is_fresh_claim(self, op: Operation) -> bool {
        op matches Operation::Claim { key, now, .. } && !self.decides_in_place(key, now)
    }

    /// Whether the operation is a fresh claim and drops every slot expired at
    /// its time, and no other.
    pub open spec fn prunes(self, op: Operation) -> bool {
        self.is_fresh_claim(op) && (op matches Operation::Claim { key, now, .. } && forall|
            other: Seq<char>,
        |
            other != key ==> (#[trigger] self.apply(op).slots.contains_key(other)
                <==> self.is_live(other, now)))
    }

    /// Whether the operation records a response for a key that is not
    /// tracked.
    pub open spec fn is_orphan(self, op: Operation) -> bool {
        op matches Operation::Complete { key, .. } && !self.slots.contains_key(key)
    }

    /// How many of the operations are fresh claims at that point.
    pub open spec fn fresh_claims(self, ops: Seq<Operation>) -> nat
        decreases ops.len(),
    {
        if ops.len() == 0 {
            0
        } else {
            self.fresh_claims(ops.drop_last()) + if self.run(ops.drop_last()).is_fresh_claim(
                ops.last(),
            ) {
                1nat
            } else {
                0
            }
        }
    }

    /// How many of the operations record a response for a key not tracked at
    /// that point.
    pub open spec fn orphans(self, ops: Seq<Operation>) -> nat
        decreases ops.len(),
    {
        if ops.len() == 0 {
            0
        } else {
            self.orphans(ops.drop_last()) + if self.run(ops.drop_last()).is_orphan(ops.last()) {
                1nat
            } else {
                0
            }
        }
    }

    /// An execution on the store: `key` is claimed at `claimed_at`, and if
    /// that makes the caller the first, the request ends in `outcome` and is
    /// settled at `finished_at`. Yields what is returned and the state left.
    pub open spec fn execute(
        self,
        key: Seq<char>,
        ttl: nat,
        claimed_at: nat,
        outcome: Result<Seq<u8>, Seq<char>>,
        finished_at: nat,
    ) -> (Result<Seq<u8>, IdempotencyErrorView>, Self) {
        let (claim, held) = self.claim(key, ttl, claimed_at);
        match (crate::executor::claim_reply(claim), outcome) {
            (Some(reply), _) => (reply, held),
            (None, Ok(response)) => (Ok(response), held.complete(key, response, finished_at)),
            (None, Err(message)) => (
                Err(IdempotencyErrorView::ExecutionFailed(message)),
                held.release(key),
            ),
        }
    }

    /// What an execution returns and the state it leaves.
    pub open spec fn executed(self, e: Execution) -> (Result<Seq<u8>, IdempotencyErrorView>, Self) {
        self.execute(e.key, e.ttl, e.claimed_at, e.outcome, e.finished_at)
    }

    /// The state after a sequence of executions, one after the other.
    pub open spec fn run_executions(self, executions: Seq<Execution>) -> Self
        decreases executions.len(),
    {
        if executions.len() == 0 {
            self
        } else {
            self.run_executions(executions.drop_last()).executed(executions.last()).1
        }
    }
}

} // verus!
