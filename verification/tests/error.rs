use idempotency_kit::error::render_invalid_scope;
use idempotency_kit::{IdempotencyError, StoreError};

#[test]
fn store_error_display_is_informative() {
    assert_eq!(
        StoreError::CapacityExceeded.to_string(),
        "idempotency store at capacity; failing closed"
    );
    assert_eq!(
        StoreError::Backend("connection reset".into()).to_string(),
        "idempotency store backend failure: connection reset"
    );
}

#[test]
fn idempotency_error_display_is_informative() {
    let scope = IdempotencyError::InvalidScope {
        scope: "BAD SCOPE".into(),
    };
    assert_eq!(
        scope.to_string(),
        "invalid idempotency scope \"BAD SCOPE\": must match [a-z0-9_.-]{1,64}"
    );
    assert_eq!(
        IdempotencyError::ConcurrentRequest.to_string(),
        "concurrent request already in flight for this idempotency key"
    );
    assert_eq!(
        IdempotencyError::ExecutionFailed("boom".into()).to_string(),
        "request execution failed: boom"
    );
    assert_eq!(
        IdempotencyError::Store(StoreError::CapacityExceeded).to_string(),
        "idempotency store at capacity; failing closed"
    );
}

#[test]
fn store_error_is_source_of_store_variant() {
    let err = IdempotencyError::from(StoreError::Backend("down".into()));
    assert!(err.source().is_some());
    assert!(IdempotencyError::ConcurrentRequest.source().is_none());
}

#[test]
fn from_wraps_the_store_error() {
    assert_eq!(
        IdempotencyError::from(StoreError::CapacityExceeded),
        IdempotencyError::Store(StoreError::CapacityExceeded)
    );
    assert_eq!(
        IdempotencyError::Store(StoreError::Backend("down".into())).source(),
        Some(&StoreError::Backend("down".into()))
    );
}

#[test]
fn rejected_scopes_are_quoted_and_escaped() {
    let err = IdempotencyError::InvalidScope {
        scope: "a\"b\n".into(),
    };
    assert_eq!(
        err.to_string(),
        "invalid idempotency scope \"a\\\"b\\n\": must match [a-z0-9_.-]{1,64}"
    );
    assert_eq!(
        render_invalid_scope("<scope>"),
        "invalid idempotency scope <scope>: must match [a-z0-9_.-]{1,64}"
    );
}
