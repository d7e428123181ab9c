//! Errors produced by key derivation, stores, and the executor.
//!
//! Documented failure modes are part of the API contract; every variant
//! lists the condition that produces it.

use vstd::prelude::*;

verus! {

/// A failure of the underlying [`IdempotencyStore`](crate::IdempotencyStore).
///
/// Stores are expected to fail closed: when a store cannot safely admit a
/// new claim it returns an error rather than silently dropping state that
/// another caller may depend on.
#[derive(Debug, Clone, PartialEq, Eq)]
#[non_exhaustive]
pub enum StoreError {
    /// The store is at its configured capacity and every tracked claim is
    /// still inside its TTL window. Evicting a live claim instead would let
    /// a duplicate request execute again.
    CapacityExceeded,
    /// The backend failed. The `String` is the backend's own diagnostic.
    Backend(String),
}

/// The mathematical value of a [`StoreError`].
pub enum StoreErrorView {
    CapacityExceeded,
    Backend(Seq<char>),
}

impl View for StoreError {
    type V = StoreErrorView;

    open spec fn view(&self) -> StoreErrorView {
        match self {
            StoreError::CapacityExceeded => StoreErrorView::CapacityExceeded,
            StoreError::Backend(diagnostic) => StoreErrorView::Backend(diagnostic@),
        }
    }
}

/// Top-level failure: key derivation, store plumbing, or execution outcome.
#[derive(Debug, Clone, PartialEq, Eq)]
#[non_exhaustive]
pub enum IdempotencyError {
    /// The scope failed validation. Scopes must match `[a-z0-9_.-]{1,64}`.
    /// The rejected scope is kept for diagnostics.
    InvalidScope {
        /// The rejected scope string.
        scope: String,
    },
    /// The underlying store failed while claiming, completing, or releasing.
    Store(StoreError),
    /// Another caller holds an unexpired, unfinished claim for this key. The
    /// request was not executed.
    ConcurrentRequest,
    /// The request itself failed. The `String` is its error message.
    ExecutionFailed(String),
}

/// The mathematical value of an [`IdempotencyError`].
pub enum IdempotencyErrorView {
    InvalidScope { scope: Seq<char> },
    Store(StoreErrorView),
    ConcurrentRequest,
    ExecutionFailed(Seq<char>),
}

impl View for IdempotencyError {
    type V = IdempotencyErrorView;

    open spec fn view(&self) -> IdempotencyErrorView {
        match self {
            IdempotencyError::InvalidScope { scope } => IdempotencyErrorView::InvalidScope {
                scope: scope@,
            },
            IdempotencyError::Store(error) => IdempotencyErrorView::Store(error@),
            IdempotencyError::ConcurrentRequest => IdempotencyErrorView::ConcurrentRequest,
            IdempotencyError::ExecutionFailed(message) => IdempotencyErrorView::ExecutionFailed(
                message@,
            ),
        }
    }
}

/// What std's `Debug` formatting writes for a string: the string in double
/// quotes, with the characters that std escapes escaped.
pub uninterp spec fn debug_text(text: Seq<char>) -> Seq<char>;

/// Formats a string with `format!("{:?}", ..)`, that is with std's
/// `<str as Debug>::fmt`. Trusted: the outcome depends on the string alone,
/// and [`debug_text`] names it.
#[verifier::external_body]
fn debug_format(text: &str) -> (quoted: String)
    ensures
        quoted@ == debug_text(text@),
{
    format!("{:?}", text)
}

impl StoreErrorView {
    /// The message of the error.
    pub open spec fn message(self) -> Seq<char> {
        match self {
            StoreErrorView::CapacityExceeded => "idempotency store at capacity; failing closed"@,
            StoreErrorView::Backend(diagnostic) => "idempotency store backend failure: "@
                + diagnostic,
        }
    }
}

impl IdempotencyErrorView {
    /// The message of the error.
    pub open spec fn message(self) -> Seq<char> {
        match self {
            IdempotencyErrorView::InvalidScope { scope } => invalid_scope_message(
                debug_text(scope),
            ),
            IdempotencyErrorView::Store(error) => error.message(),
            IdempotencyErrorView::ConcurrentRequest =>
                "concurrent request already in flight for this idempotency key"@,
            IdempotencyErrorView::ExecutionFailed(message) => "request execution failed: "@
                + message,
        }
    }
}

/// The message for a rejected scope, given the scope as a quoted string.
pub open spec fn invalid_scope_message(quoted: Seq<char>) -> Seq<char> {
    "invalid idempotency scope "@ + quoted + ": must match [a-z0-9_.-]{1,64}"@
}

/// Builds the message for a rejected scope from the quoted scope.
pub fn render_invalid_scope(quoted: &str) -> (message: String)
    ensures
        message@ == invalid_scope_message(quoted@),
{
    let mut message = "invalid idempotency scope ".to_owned();
    message.append(quoted);
    message.append(": must match [a-z0-9_.-]{1,64}");
    message
}

impl StoreError {
    /// The human-readable message.
    pub fn to_string(&self) -> (message: String)
        ensures
            message@ == self@.message(),
    {
        match self {
            StoreError::CapacityExceeded =>
                "idempotency store at capacity; failing closed".to_owned(),
            StoreError::Backend(diagnostic) => {
                let mut message = "idempotency store backend failure: ".to_owned();
                message.append(diagnostic.as_str());
                message
            },
        }
    }
}

impl IdempotencyError {
    /// The human-readable message. A store failure speaks for itself.
    pub fn to_string(&self) -> (message: String)
        ensures
            message@ == self@.message(),
    {
        match self {
            IdempotencyError::InvalidScope { scope } => {
                let quoted = debug_format(scope.as_str());
                render_invalid_scope(quoted.as_str())
            },
            IdempotencyError::Store(error) => error.to_string(),
            IdempotencyError::ConcurrentRequest =>
                "concurrent request already in flight for this idempotency key".to_owned(),
            IdempotencyError::ExecutionFailed(message) => {
                let mut text = "request execution failed: ".to_owned();
                text.append(message.as_str());
                text
            },
        }
    }

    /// The underlying cause: the store error of a [`IdempotencyError::Store`],
    /// nothing for any other variant.
    pub fn source(&self) -> (cause: Option<&StoreError>)
        ensures
            match self {
                IdempotencyError::Store(error) => cause == Some(error),
                _ => cause is None,
            },
    {
        match self {
            IdempotencyError::Store(error) => Some(error),
            _ => None,
        }
    }
}

impl From<StoreError> for IdempotencyError {
    fn from(error: StoreError) -> (wrapped: Self) {
        IdempotencyError::Store(error)
    }
}

impl vstd::std_specs::convert::FromSpecImpl<StoreError> for IdempotencyError {
    open spec fn obeys_from_spec() -> bool {
        true
    }

    open spec fn from_spec(error: StoreError) -> Self {
        IdempotencyError::Store(error)
    }
}

/// An error's value is the error: no variant is taken for another, and what
/// they carry is kept whole.
pub proof fn law_errors_are_told_apart(error: StoreError, scope: String, message: String)
    ensures
        error matches StoreError::Backend(diagnostic) ==> error@ == StoreErrorView::Backend(
            diagnostic@,
        ),
        StoreError::CapacityExceeded@ == StoreErrorView::CapacityExceeded,
        IdempotencyError::Store(error)@ == IdempotencyErrorView::Store(error@),
        IdempotencyError::ConcurrentRequest@ == IdempotencyErrorView::ConcurrentRequest,
        IdempotencyError::ExecutionFailed(message)@ == IdempotencyErrorView::ExecutionFailed(
            message@,
        ),
        (IdempotencyError::InvalidScope { scope })@ == (IdempotencyErrorView::InvalidScope {
            scope: scope@,
        }),
{
}

/// The messages of store errors: a backend's diagnostic is passed on whole.
pub proof fn law_store_error_messages(error: &StoreError, message: String)
    requires
        call_ensures(StoreError::to_string, (error,), message),
    ensures
        match error {
            StoreError::CapacityExceeded => message@
                == "idempotency store at capacity; failing closed"@,
            StoreError::Backend(diagnostic) => message@ == "idempotency store backend failure: "@
                + diagnostic@,
        },
{
}

/// The messages of top-level errors: a store failure reads as the store's
/// own, a failed request's message is passed on whole, and a rejected scope
/// is quoted.
pub proof fn law_error_messages(error: &IdempotencyError, message: String)
    requires
        call_ensures(IdempotencyError::to_string, (error,), message),
    ensures
        match error {
            IdempotencyError::InvalidScope { scope } => message@ == "invalid idempotency scope "@
                + debug_text(scope@) + ": must match [a-z0-9_.-]{1,64}"@,
            IdempotencyError::Store(StoreError::CapacityExceeded) => message@
                == "idempotency store at capacity; failing closed"@,
            IdempotencyError::Store(StoreError::Backend(diagnostic)) => message@
                == "idempotency store backend failure: "@ + diagnostic@,
            IdempotencyError::ConcurrentRequest => message@
                == "concurrent request already in flight for this idempotency key"@,
            IdempotencyError::ExecutionFailed(cause) => message@ == "request execution failed: "@
                + cause@,
        },
{
}

/// Wrapping a store error keeps it: it is the source of what it was wrapped
/// in, and only such an error has a source.
pub proof fn law_wrapped_store_errors(
    error: StoreError,
    wrapped: IdempotencyError,
    other: &IdempotencyError,
    cause: Option<&StoreError>,
)
    requires
        call_ensures(<IdempotencyError as From<StoreError>>::from, (error,), wrapped),
        call_ensures(IdempotencyError::source, (other,), cause),
    ensures
        wrapped == IdempotencyError::Store(error),
        cause is Some <==> other is Store,
        cause matches Some(inner) ==> *other == IdempotencyError::Store(*inner),
{
}

/// The message for a rejected scope quotes it whole.
pub proof fn law_invalid_scope_message(quoted: &str, message: String)
    requires
        call_ensures(render_invalid_scope, (quoted,), message),
    ensures
        message@ == "invalid idempotency scope "@ + quoted@ + ": must match [a-z0-9_.-]{1,64}"@,
{
}

} // verus!
