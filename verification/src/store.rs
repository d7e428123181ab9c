//! The pluggable storage contract.

use crate::error::{StoreError, StoreErrorView};
use crate::key::{IdempotencyKey, KeyView};
use crate::span::Span;
use vstd::prelude::*;

verus! {

/// The outcome of an atomic claim attempt.
///
/// [`Claim::First`] and [`Claim::Replay`] are terminal for the caller:
/// execute (First) or return the stored response (Replay).
/// [`Claim::InFlight`] means another caller owns the key right now.
#[derive(Debug, Clone, PartialEq, Eq)]
pub enum Claim {
    /// This caller owns the claim for its TTL: run the request, then
    /// [`IdempotencyStore::complete`] (or [`IdempotencyStore::release`] on
    /// failure).
    First,
    /// A completed response exists for this key within its TTL window.
    /// Return the bytes to the caller without executing.
    Replay(Vec<u8>),
    /// Another caller holds an unexpired, unfinished claim. No response
    /// exists yet.
    InFlight,
}

/// The mathematical value of a [`Claim`].
pub enum ClaimView {
    First,
    Replay(Seq<u8>),
    InFlight,
}

impl View for Claim {
    type V = ClaimView;

    open spec fn view(&self) -> ClaimView {
        match self {
            Claim::First => ClaimView::First,
            Claim::Replay(response) => ClaimView::Replay(response@),
            Claim::InFlight => ClaimView::InFlight,
        }
    }
}

/// The mathematical value of what a claim attempt returns.
pub open spec fn claim_result(result: Result<Claim, StoreError>) -> Result<
    ClaimView,
    StoreErrorView,
> {
    match result {
        Ok(claim) => Ok(claim@),
        Err(error) => Err(error@),
    }
}

/// The mathematical value of what completing or releasing a claim returns.
pub open spec fn unit_result(result: Result<(), StoreError>) -> Result<(), StoreErrorView> {
    match result {
        Ok(()) => Ok(()),
        Err(error) => Err(error@),
    }
}

/// Atomic, TTL-bounded idempotency-claim storage.
///
/// Implementations make [`claim`](IdempotencyStore::claim) atomic: exactly
/// one caller may observe [`Claim::First`] for a given key at a time.
///
/// Every implementation says, in three relations, which outcomes and which
/// next states its operations allow. A store whose outcomes rest on a clock
/// or on a service allows more than one.
///
/// Contract notes:
///
/// - TTLs are upper bounds on claim residency; implementations may enforce
///   a floor (both stores here floor a zero TTL to 1 second) so a zero TTL
///   cannot produce instant-expire claims.
/// - `complete` records the response so subsequent claims within the TTL
///   window observe [`Claim::Replay`].
/// - `release` drops a held claim without a response so a retry can claim
///   again; it is the error-path counterpart of `complete`.
pub trait IdempotencyStore: Send + Sync {
    /// The internal invariant of the store.
    open spec fn wf(&self) -> bool {
        true
    }

    /// Whether claiming `key` for `ttl` nanoseconds may lead from this state
    /// to `after` and return `result`.
    open spec fn claims(
        &self,
        key: KeyView,
        ttl: nat,
        result: Result<ClaimView, StoreErrorView>,
        after: &Self,
    ) -> bool {
        true
    }

    /// Whether recording `response` for `key` may lead from this state to
    /// `after` and return `result`.
    open spec fn completes(
        &self,
        key: KeyView,
        response: Seq<u8>,
        result: Result<(), StoreErrorView>,
        after: &Self,
    ) -> bool {
        true
    }

    /// Whether releasing `key` may lead from this state to `after` and
    /// return `result`.
    open spec fn releases(
        &self,
        key: KeyView,
        result: Result<(), StoreErrorView>,
        after: &Self,
    ) -> bool {
        true
    }

    /// Atomically claim the key for `ttl`. Returns [`Claim::First`] when
    /// this caller owns the claim, [`Claim::Replay`] when a completed
    /// response exists, and [`Claim::InFlight`] when another caller holds
    /// an unexpired, unfinished claim.
    fn claim(&mut self, key: &IdempotencyKey, ttl: Span) -> (result: Result<Claim, StoreError>)
        requires
            old(self).wf(),
        ensures
            final(self).wf(),
            old(self).claims(key@, ttl@, claim_result(result), final(self)),
    ;

    /// Record the completed response for a held claim.
    fn complete(&mut self, key: &IdempotencyKey, response: Vec<u8>) -> (result: Result<
        (),
        StoreError,
    >)
        requires
            old(self).wf(),
        ensures
            final(self).wf(),
            old(self).completes(key@, response@, unit_result(result), final(self)),
    ;

    /// Release a claim without a response (error path / rollback).
    fn release(&mut self, key: &IdempotencyKey) -> (result: Result<(), StoreError>)
        requires
            old(self).wf(),
        ensures
            final(self).wf(),
            old(self).releases(key@, unit_result(result), final(self)),
    ;
}

/// The value of what a claim attempt returns is what it returns: no outcome
/// is taken for another, and a response is kept whole.
pub proof fn law_claim_outcomes_are_told_apart(response: Vec<u8>, error: StoreError)
    ensures
        claim_result(Ok(Claim::First)) == Ok::<ClaimView, StoreErrorView>(ClaimView::First),
        claim_result(Ok(Claim::InFlight)) == Ok::<ClaimView, StoreErrorView>(ClaimView::InFlight),
        claim_result(Ok(Claim::Replay(response))) == Ok::<ClaimView, StoreErrorView>(
            ClaimView::Replay(response@),
        ),
        claim_result(Err(error)) == Err::<ClaimView, StoreErrorView>(error@),
        unit_result(Ok(())) == Ok::<(), StoreErrorView>(()),
        unit_result(Err(error)) == Err::<(), StoreErrorView>(error@),
{
}

} // verus!
