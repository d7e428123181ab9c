//! The claim → execute → complete/release driver.

use crate::error::{IdempotencyError, IdempotencyErrorView, StoreError, StoreErrorView};
use crate::key::{IdempotencyKey, KeyView};
use crate::span::Span;
use crate::store::{Claim, ClaimView, IdempotencyStore};
use vstd::prelude::*;

verus! {

/// The mathematical value of what an execution returns.
pub open spec fn response_result(result: Result<Vec<u8>, IdempotencyError>) -> Result<
    Seq<u8>,
    IdempotencyErrorView,
> {
    match result {
        Ok(response) => Ok(response@),
        Err(error) => Err(error@),
    }
}

/// The mathematical value of what the request itself returned: its response,
/// or its error message.
pub open spec fn run_result(outcome: Result<Vec<u8>, String>) -> Result<Seq<u8>, Seq<char>> {
    match outcome {
        Ok(response) => Ok(response@),
        Err(message) => Err(message@),
    }
}

/// What the claim attempt alone decides: nothing if the caller is the first
/// and runs the request, the reply to return without running it otherwise.
pub open spec fn claim_reply(claim: Result<ClaimView, StoreErrorView>) -> Option<
    Result<Seq<u8>, IdempotencyErrorView>,
> {
    match claim {
        Ok(ClaimView::First) => None,
        Ok(ClaimView::Replay(response)) => Some(Ok(response)),
        Ok(ClaimView::InFlight) => Some(Err(IdempotencyErrorView::ConcurrentRequest)),
        Err(error) => Some(Err(IdempotencyErrorView::Store(error))),
    }
}

/// What is returned after a successful request, given how recording its
/// response went.
pub open spec fn recorded_reply(
    response: Seq<u8>,
    recorded: Result<(), StoreErrorView>,
) -> Result<Seq<u8>, IdempotencyErrorView> {
    match recorded {
        Ok(()) => Ok(response),
        Err(error) => Err(IdempotencyErrorView::Store(error)),
    }
}

/// Whether a request that ended in `outcome` while the store was in state
/// `held` may leave the store in state `after` and return `result`: a
/// response is recorded, a failure releases the claim.
pub open spec fn settles<S: IdempotencyStore>(
    held: S,
    key: KeyView,
    outcome: Result<Seq<u8>, Seq<char>>,
    result: Result<Seq<u8>, IdempotencyErrorView>,
    after: S,
) -> bool {
    match outcome {
        Ok(response) => exists|recorded: Result<(), StoreErrorView>|
            #[trigger] held.completes(key, response, recorded, &after) && result == recorded_reply(
                response,
                recorded,
            ),
        Err(message) => {
            &&& exists|released: Result<(), StoreErrorView>| #[trigger]
                held.releases(key, released, &after)
            &&& result == Err::<Seq<u8>, IdempotencyErrorView>(
                IdempotencyErrorView::ExecutionFailed(message),
            )
        },
    }
}

/// What to do once a claim attempt has returned.
#[derive(Debug)]
pub enum AfterClaim {
    /// This caller owns the claim: run the request.
    Run,
    /// Return the reply without running the request.
    Return(Result<Vec<u8>, IdempotencyError>),
}

/// What to do once the request has run.
#[derive(Debug)]
pub enum AfterRun {
    /// Record the response.
    Complete {
        /// The response of the request.
        response: Vec<u8>,
    },
    /// Release the claim.
    Release {
        /// The error message of the request.
        message: String,
    },
}

/// Executes a request under an idempotency claim.
///
/// 1. **Claim.** [`Claim::First`]: this caller runs the request.
///    [`Claim::Replay`]: a completed response exists; return it without
///    executing. [`Claim::InFlight`]: another caller is mid-request; fail
///    with [`IdempotencyError::ConcurrentRequest`].
/// 2. **Complete or release.** A successful request is recorded with
///    [`IdempotencyStore::complete`] so subsequent claims replay it; a
///    failed request releases the claim so a retry can execute again.
///
/// # Exactly-once response, at-least-once execution
///
/// What is exactly-once is *response replay*, not execution. Side effects of
/// the request may run more than once across a TTL boundary (a claim lapses
/// while its request is still running; the retry then executes again).
#[derive(Debug, Clone, Copy)]
pub struct IdempotencyExecutor;

impl Default for IdempotencyExecutor {
    fn default() -> (executor: Self)
        ensures
            executor == IdempotencyExecutor,
    {
        IdempotencyExecutor
    }
}

impl IdempotencyExecutor {
    /// What follows a claim attempt.
    pub fn after_claim(claimed: Result<Claim, StoreError>) -> (next: AfterClaim)
        ensures
            match next {
                AfterClaim::Run => claim_reply(crate::store::claim_result(claimed)) is None,
                AfterClaim::Return(reply) => claim_reply(crate::store::claim_result(claimed))
                    == Some(response_result(reply)),
            },
    {
        match claimed {
            Ok(Claim::First) => AfterClaim::Run,
            Ok(Claim::Replay(response)) => AfterClaim::Return(Ok(response)),
            Ok(Claim::InFlight) => AfterClaim::Return(Err(IdempotencyError::ConcurrentRequest)),
            Err(error) => AfterClaim::Return(Err(IdempotencyError::from(error))),
        }
    }

    /// What follows the request.
    pub fn after_run(outcome: Result<Vec<u8>, String>) -> (next: AfterRun)
        ensures
            match next {
                AfterRun::Complete { response } => run_result(outcome) == Ok::<
                    Seq<u8>,
                    Seq<char>,
                >(response@),
                AfterRun::Release { message } => run_result(outcome) == Err::<Seq<u8>, Seq<char>>(
                    message@,
                ),
            },
    {
        match outcome {
            Ok(response) => AfterRun::Complete { response },
            Err(message) => AfterRun::Release { message },
        }
    }

    /// What is returned once recording `response` has returned `recorded`.
    /// A failure means the response was computed but not persisted; the next
    /// caller may re-execute.
    pub fn after_complete(response: Vec<u8>, recorded: Result<(), StoreError>) -> (reply: Result<
        Vec<u8>,
        IdempotencyError,
    >)
        ensures
            response_result(reply) == recorded_reply(
                response@,
                crate::store::unit_result(recorded),
            ),
    {
        match recorded {
            Ok(()) => Ok(response),
            Err(error) => Err(IdempotencyError::from(error)),
        }
    }

    /// What is returned once releasing the claim of a failed request has
    /// returned. Releasing is best effort: if it failed, the claim lapses via
    /// its TTL, and the request's own failure is reported all the same.
    pub fn after_release(message: String, _released: Result<(), StoreError>) -> (reply: Result<
        Vec<u8>,
        IdempotencyError,
    >)
        ensures
            response_result(reply) == Err::<Seq<u8>, IdempotencyErrorView>(
                IdempotencyErrorView::ExecutionFailed(message@),
            ),
    {
        Err(IdempotencyError::ExecutionFailed(message))
    }

    /// Claim `key` for `ttl`, run `f` at most once per claim, and replay the
    /// recorded response for every subsequent claim inside the window.
    ///
    /// `f` has to be callable only where the claim makes this caller the
    /// first: on a replay, a collision or a failed claim it is not run.
    ///
    /// # Errors
    ///
    /// - [`IdempotencyError::Store`]: the store failed to claim the key or to
    ///   record the response.
    /// - [`IdempotencyError::ConcurrentRequest`]: another caller holds the
    ///   claim; the request was not run.
    /// - [`IdempotencyError::ExecutionFailed`]: the request failed; the claim
    ///   was released.
    pub fn execute<S: IdempotencyStore, F: FnOnce() -> Result<Vec<u8>, String>>(
        store: &mut S,
        key: &IdempotencyKey,
        ttl: Span,
        f: F,
    ) -> (result: Result<Vec<u8>, IdempotencyError>)
        requires
            old(store).wf(),
            forall|held: S|
                #[trigger] old(store).claims(
                    key@,
                    ttl@,
                    Ok::<ClaimView, StoreErrorView>(ClaimView::First),
                    &held,
                ) ==> f.requires(()),
        ensures
            final(store).wf(),
            exists|claim: Result<ClaimView, StoreErrorView>, held: S|
                {
                    &&& #[trigger] old(store).claims(key@, ttl@, claim, &held)
                    &&& held.wf()
                    &&& match claim_reply(claim) {
                        Some(reply) => *final(store) == held && response_result(result) == reply,
                        None => exists|outcome: Result<Vec<u8>, String>|
                            #[trigger] f.ensures((), outcome) && settles(
                                held,
                                key@,
                                run_result(outcome),
                                response_result(result),
                                *final(store),
                            ),
                    }
                },
    {
        let claimed = store.claim(key, ttl);
        let ghost held = *store;
        match Self::after_claim(claimed) {
            AfterClaim::Return(reply) => reply,
            AfterClaim::Run => {
                let outcome = f();
                match Self::after_run(outcome) {
                    AfterRun::Complete { response } => {
                        let recorded = store.complete(key, response.clone());
                        Self::after_complete(response, recorded)
                    },
                    AfterRun::Release { message } => {
                        let released = store.release(key);
                        Self::after_release(message, released)
                    },
                }
            },
        }
    }
}

/// What follows a claim attempt, outcome by outcome: the first caller runs the
/// request, a recorded response is returned whole, and nothing is run on a
/// collision or a failure, which are reported.
pub proof fn law_after_claim_in_full(claimed: Result<Claim, StoreError>, next: AfterClaim)
    requires
        call_ensures(IdempotencyExecutor::after_claim, (claimed,), next),
    ensures
        match claimed {
            Ok(Claim::First) => next is Run,
            Ok(Claim::Replay(recorded)) => {
                &&& next matches AfterClaim::Return(Ok(returned))
                &&& returned@ == recorded@
            },
            Ok(Claim::InFlight) => {
                &&& next matches AfterClaim::Return(Err(error))
                &&& error is ConcurrentRequest
            },
            Err(failure) => {
                &&& next matches AfterClaim::Return(Err(error))
                &&& error matches IdempotencyError::Store(passed)
                &&& passed@ == failure@
            },
        },
{
}

/// What follows the request: its response is recorded whole, its failure
/// releases the claim with the message whole.
pub proof fn law_after_run_in_full(outcome: Result<Vec<u8>, String>, next: AfterRun)
    requires
        call_ensures(IdempotencyExecutor::after_run, (outcome,), next),
    ensures
        match outcome {
            Ok(made) => next matches AfterRun::Complete { response } && response@ == made@,
            Err(cause) => next matches AfterRun::Release { message } && message@ == cause@,
        },
{
}

/// What is returned in the end: the response itself once it is recorded, the
/// store's failure if it could not be, and the request's own failure however
/// releasing the claim went.
pub proof fn law_replies_in_full(
    response: Vec<u8>,
    recorded: Result<(), StoreError>,
    completed: Result<Vec<u8>, IdempotencyError>,
    message: String,
    released: Result<(), StoreError>,
    failed: Result<Vec<u8>, IdempotencyError>,
)
    requires
        call_ensures(IdempotencyExecutor::after_complete, (response, recorded), completed),
        call_ensures(IdempotencyExecutor::after_release, (message, released), failed),
    ensures
        match recorded {
            Ok(_) => completed matches Ok(returned) && returned@ == response@,
            Err(failure) => {
                &&& completed matches Err(error)
                &&& error matches IdempotencyError::Store(passed)
                &&& passed@ == failure@
            },
        },
        failed matches Err(error) && error matches IdempotencyError::ExecutionFailed(cause)
            && cause@ == message@,
{
}

/// An execution on any store, outcome by outcome. A first claim runs the
/// request: its response is recorded and returned, its failure releases the
/// claim and is returned. Any other outcome of the claim is returned, and the
/// store is left as the claim left it.
pub proof fn law_execution_in_full<S: IdempotencyStore, F: FnOnce() -> Result<Vec<u8>, String>>(
    key: &IdempotencyKey,
    ttl: Span,
    f: F,
    result: Result<Vec<u8>, IdempotencyError>,
)
    ensures
        forall|store: &mut S| #[trigger]
            call_ensures(IdempotencyExecutor::execute::<S, F>, (store, key, ttl, f), result)
                ==> exists|claim: Result<ClaimView, StoreErrorView>, held: S| #[trigger]
                store.claims(key@, ttl@, claim, &held) && match claim {
                    Ok(ClaimView::First) => exists|outcome: Result<Vec<u8>, String>| #[trigger]
                        f.ensures((), outcome) && match outcome {
                            Ok(made) => exists|recorded: Result<(), StoreErrorView>| #[trigger]
                                held.completes(key@, made@, recorded, final(store))
                                    && match recorded {
                                    Ok(_) => (result matches Ok(returned) && returned@ == made@),
                                    Err(failure) => (result matches Err(error)
                                        && error matches IdempotencyError::Store(passed) && passed@
                                        == failure),
                                },
                            Err(cause) => (exists|released: Result<(), StoreErrorView>| #[trigger]
                                held.releases(key@, released, final(store))) && (result matches Err(
                                error,
                            ) && error matches IdempotencyError::ExecutionFailed(message)
                                && message@ == cause@),
                        },
                    Ok(ClaimView::Replay(recorded)) => *final(store) == held && (
                    result matches Ok(returned) && returned@ == recorded),
                    Ok(ClaimView::InFlight) => *final(store) == held && (result matches Err(error)
                        && error is ConcurrentRequest),
                    Err(failure) => *final(store) == held && (result matches Err(error)
                        && error matches IdempotencyError::Store(passed) && passed@ == failure),
                },
{
    assert forall|store: &mut S| #[trigger]
        call_ensures(
            IdempotencyExecutor::execute::<S, F>,
            (store, key, ttl, f),
            result,
        ) implies exists|claim: Result<ClaimView, StoreErrorView>, held: S| #[trigger]
        store.claims(key@, ttl@, claim, &held) && match claim {
            Ok(ClaimView::First) => exists|outcome: Result<Vec<u8>, String>| #[trigger]
                f.ensures((), outcome) && match outcome {
                    Ok(made) => exists|recorded: Result<(), StoreErrorView>| #[trigger]
                        held.completes(key@, made@, recorded, final(store)) && match recorded {
                            Ok(_) => (result matches Ok(returned) && returned@ == made@),
                            Err(failure) => (result matches Err(error)
                                && error matches IdempotencyError::Store(passed) && passed@
                                == failure),
                        },
                    Err(cause) => (exists|released: Result<(), StoreErrorView>| #[trigger]
                        held.releases(key@, released, final(store))) && (result matches Err(error)
                        && error matches IdempotencyError::ExecutionFailed(message) && message@
                        == cause@),
                },
            Ok(ClaimView::Replay(recorded)) => *final(store) == held && (result matches Ok(
                returned,
            ) && returned@ == recorded),
            Ok(ClaimView::InFlight) => *final(store) == held && (result matches Err(error)
                && error is ConcurrentRequest),
            Err(failure) => *final(store) == held && (result matches Err(error)
                && error matches IdempotencyError::Store(passed) && passed@ == failure),
        } by {
        let (claim, held) = choose|claim: Result<ClaimView, StoreErrorView>, held: S|
            {
                &&& #[trigger] store.claims(key@, ttl@, claim, &held)
                &&& held.wf()
                &&& match claim_reply(claim) {
                    Some(reply) => *final(store) == held && response_result(result) == reply,
                    None => exists|outcome: Result<Vec<u8>, String>|
                        #[trigger] f.ensures((), outcome) && settles(
                            held,
                            key@,
                            run_result(outcome),
                            response_result(result),
                            *final(store),
                        ),
                }
            };
        assert(store.claims(key@, ttl@, claim, &held));
        if claim == Ok::<ClaimView, StoreErrorView>(ClaimView::First) {
            let outcome = choose|outcome: Result<Vec<u8>, String>|
                #[trigger] f.ensures((), outcome) && settles(
                    held,
                    key@,
                    run_result(outcome),
                    response_result(result),
                    *final(store),
                );
            assert(f.ensures((), outcome));
            match outcome {
                Ok(made) => {
                    let recorded = choose|recorded: Result<(), StoreErrorView>|
                        #[trigger] held.completes(key@, made@, recorded, final(store))
                            && response_result(result) == recorded_reply(made@, recorded);
                    assert(held.completes(key@, made@, recorded, final(store)));
                },
                Err(cause) => {
                    let released = choose|released: Result<(), StoreErrorView>| #[trigger]
                        held.releases(key@, released, final(store));
                    assert(held.releases(key@, released, final(store)));
                },
            }
        }
    }
}

} // verus!
