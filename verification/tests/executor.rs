use idempotency_kit::{
    AfterClaim, AfterRun, Claim, IdempotencyError, IdempotencyExecutor, IdempotencyKey,
    IdempotencyStore, MemoryStore, Span, StoreError,
};

fn key(body: &[u8]) -> IdempotencyKey {
    IdempotencyKey::derive("exec", body).unwrap()
}

fn scoped(scope: &str, body: &[u8]) -> IdempotencyKey {
    IdempotencyKey::derive(scope, body).unwrap()
}

#[test]
fn happy_path_runs_once_then_replays() {
    let mut store = MemoryStore::new();
    let k = key(b"once");
    let mut runs = 0;

    let first = IdempotencyExecutor::execute(&mut store, &k, Span::from_secs(60), || {
        runs += 1;
        Ok(b"response".to_vec())
    })
    .unwrap();
    assert_eq!(first, b"response");

    let replay = IdempotencyExecutor::execute(&mut store, &k, Span::from_secs(60), || {
        runs += 1;
        Ok(b"response".to_vec())
    })
    .unwrap();
    assert_eq!(replay, b"response");
    assert_eq!(runs, 1);
}

#[test]
fn closure_error_releases_the_claim() {
    let mut store = MemoryStore::new();
    let k = key(b"fails-first");

    let err = IdempotencyExecutor::execute(&mut store, &k, Span::from_secs(60), || {
        Err("disk on fire".to_string())
    })
    .unwrap_err();
    assert_eq!(
        err,
        IdempotencyError::ExecutionFailed("disk on fire".into())
    );
    assert!(store.is_empty(), "failed execution must release the claim");

    // The retry executes again and succeeds.
    let retry = IdempotencyExecutor::execute(&mut store, &k, Span::from_secs(60), || {
        Ok(b"recovered".to_vec())
    })
    .unwrap();
    assert_eq!(retry, b"recovered");
}

#[test]
fn concurrent_caller_gets_in_flight() {
    let mut store = MemoryStore::new();
    let k = key(b"contended");

    // Hold the claim without completing: the second caller must see
    // ConcurrentRequest, not execute.
    store.claim(&k, Span::from_secs(60)).unwrap();
    let err = IdempotencyExecutor::execute(&mut store, &k, Span::from_secs(60), || {
        Ok(b"must not run".to_vec())
    })
    .unwrap_err();
    assert_eq!(err, IdempotencyError::ConcurrentRequest);
}

#[test]
fn store_errors_surface_as_store_variant() {
    // A full store cannot even record the claim.
    let mut store = MemoryStore::with_capacity(1);
    let blocker = key(b"blocker");
    store.claim(&blocker, Span::from_secs(60)).unwrap();

    let err =
        IdempotencyExecutor::execute(&mut store, &key(b"over"), Span::from_secs(60), || Ok(vec![]))
            .unwrap_err();
    assert_eq!(err, IdempotencyError::Store(StoreError::CapacityExceeded));
}

#[test]
fn executor_happy_path_executes_once_and_replays() {
    let mut store = MemoryStore::new();
    let mut executions = 0;

    let first = IdempotencyExecutor::execute(
        &mut store,
        &scoped("exec", b"happy"),
        Span::from_secs(60),
        || {
            executions += 1;
            Ok(b"{\"ok\":true}".to_vec())
        },
    )
    .unwrap();
    let replay = IdempotencyExecutor::execute(
        &mut store,
        &scoped("exec", b"happy"),
        Span::from_secs(60),
        || {
            executions += 1;
            Ok(b"{\"ok\":true}".to_vec())
        },
    )
    .unwrap();
    assert_eq!(first, b"{\"ok\":true}");
    assert_eq!(replay, first, "replay must return the recorded response");
    assert_eq!(executions, 1);
}

/// The loser is rejected while the winner's request is still running; the
/// winner then completes and its response is recorded.
#[test]
fn concurrent_executors_yield_one_first_one_in_flight() {
    let mut store = MemoryStore::new();
    let k = scoped("race", b"contended-request");

    // Winner: holds the claim mid-request.
    let claimed = store.claim(&k, Span::from_secs(60));
    assert!(matches!(
        IdempotencyExecutor::after_claim(claimed),
        AfterClaim::Run
    ));
    assert!(!store.is_empty(), "winner never claimed");

    // Loser: must be rejected with ConcurrentRequest, closure never run.
    let loser_result = IdempotencyExecutor::execute(&mut store, &k, Span::from_secs(60), || {
        Err("loser executed — single-flight violated".to_string())
    });
    assert_eq!(
        loser_result.unwrap_err(),
        IdempotencyError::ConcurrentRequest
    );

    // Release the winner; it completes and its response is recorded.
    let winner_result = match IdempotencyExecutor::after_run(Ok(b"winner-response".to_vec())) {
        AfterRun::Complete { response } => {
            let recorded = store.complete(&k, response.clone());
            IdempotencyExecutor::after_complete(response, recorded).unwrap()
        }
        AfterRun::Release { .. } => panic!("a response must be recorded"),
    };
    assert_eq!(winner_result, b"winner-response");
    assert!(
        matches!(store.claim(&k, Span::from_secs(60)).unwrap(), Claim::Replay(bytes) if bytes == b"winner-response")
    );
}

#[test]
fn executor_error_path_releases_for_retry() {
    let mut store = MemoryStore::new();
    let k = scoped("error-path", b"failing-request");

    let err = IdempotencyExecutor::execute(&mut store, &k, Span::from_secs(60), || {
        Err("payment provider 502".to_string())
    })
    .unwrap_err();
    assert_eq!(
        err,
        IdempotencyError::ExecutionFailed("payment provider 502".into())
    );
    assert!(store.is_empty(), "the failed claim must be released");

    // Retry executes fresh and records its own response.
    let retry = IdempotencyExecutor::execute(&mut store, &k, Span::from_secs(60), || {
        Ok(b"recovered".to_vec())
    })
    .unwrap();
    assert_eq!(retry, b"recovered");
}

#[test]
fn claim_attempts_decide_what_follows() {
    assert!(matches!(
        IdempotencyExecutor::after_claim(Ok(Claim::First)),
        AfterClaim::Run
    ));
    match IdempotencyExecutor::after_claim(Ok(Claim::Replay(vec![7]))) {
        AfterClaim::Return(reply) => assert_eq!(reply, Ok(vec![7])),
        AfterClaim::Run => panic!("a replay must not run"),
    }
    match IdempotencyExecutor::after_claim(Ok(Claim::InFlight)) {
        AfterClaim::Return(reply) => {
            assert_eq!(reply, Err(IdempotencyError::ConcurrentRequest));
        }
        AfterClaim::Run => panic!("a collision must not run"),
    }
    match IdempotencyExecutor::after_claim(Err(StoreError::Backend("down".into()))) {
        AfterClaim::Return(reply) => assert_eq!(
            reply,
            Err(IdempotencyError::Store(StoreError::Backend("down".into())))
        ),
        AfterClaim::Run => panic!("a failed claim must not run"),
    }
}

#[test]
fn settling_failures_are_reported() {
    assert_eq!(
        IdempotencyExecutor::after_complete(vec![1], Err(StoreError::Backend("lost".into()))),
        Err(IdempotencyError::Store(StoreError::Backend("lost".into())))
    );
    // A failed release does not hide the request's own failure.
    assert_eq!(
        IdempotencyExecutor::after_release("boom".into(), Err(StoreError::CapacityExceeded)),
        Err(IdempotencyError::ExecutionFailed("boom".into()))
    );
    assert_eq!(
        IdempotencyExecutor::after_release("boom".into(), Ok(())),
        Err(IdempotencyError::ExecutionFailed("boom".into()))
    );
    assert!(matches!(
        IdempotencyExecutor::after_run(Err("boom".into())),
        AfterRun::Release { message } if message == "boom"
    ));
}

/// A store of the user's own: it admits every claim and then loses it.
struct Forgetful {
    log: Vec<String>,
}

impl IdempotencyStore for Forgetful {
    fn claim(&mut self, key: &IdempotencyKey, ttl: Span) -> Result<Claim, StoreError> {
        self.log.push(format!("claim {} {}", key.scope(), ttl.as_secs()));
        Ok(Claim::First)
    }

    fn complete(&mut self, key: &IdempotencyKey, response: Vec<u8>) -> Result<(), StoreError> {
        self.log.push(format!("complete {} {}", key.scope(), response.len()));
        Err(StoreError::Backend("disk full".into()))
    }

    fn release(&mut self, key: &IdempotencyKey) -> Result<(), StoreError> {
        self.log.push(format!("release {}", key.scope()));
        Err(StoreError::Backend("disk full".into()))
    }
}

#[test]
fn executor_drives_other_stores() {
    let mut store = Forgetful { log: vec![] };
    let k = key(b"custom");

    let unrecorded =
        IdempotencyExecutor::execute(&mut store, &k, Span::from_secs(9), || Ok(vec![1, 2, 3]));
    assert_eq!(
        unrecorded,
        Err(IdempotencyError::Store(StoreError::Backend("disk full".into())))
    );
    let failed =
        IdempotencyExecutor::execute(&mut store, &k, Span::from_secs(9), || Err("no".to_string()));
    assert_eq!(failed, Err(IdempotencyError::ExecutionFailed("no".into())));
    assert_eq!(
        store.log,
        ["claim exec 9", "complete exec 3", "claim exec 9", "release exec"]
    );
}

#[test]
fn every_retry_in_the_window_replays() {
    let mut store = MemoryStore::with_capacity(2);
    let k = key(b"retried");
    let other = key(b"other");

    IdempotencyExecutor::execute(&mut store, &k, Span::from_secs(60), || Ok(b"kept".to_vec()))
        .unwrap();
    for _ in 0..5 {
        let _ = IdempotencyExecutor::execute(&mut store, &other, Span::from_secs(60), || {
            Err("flaky".to_string())
        });
        let retry = IdempotencyExecutor::execute(&mut store, &k, Span::from_secs(1), || {
            Ok(b"replaced".to_vec())
        });
        assert_eq!(retry, Ok(b"kept".to_vec()));
    }
    assert_eq!(store.len(), 1);
}
