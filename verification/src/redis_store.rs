//! Distributed idempotency store backed by Redis: what is sent to the
//! server, and what its replies mean.
//!
//! Talking to the server is left to the caller. Each operation hands out the
//! command to send and takes the reply.

use crate::error::StoreError;
use crate::key::{IdempotencyKey, KeyView};
use crate::span::{Span, NANOS_PER_SEC};
use crate::store::{Claim, ClaimView};
use redis::aio::ConnectionManager;
use redis::RedisError;
use vstd::prelude::*;

verus! {

/// Namespace prefix for every Redis key this store touches.
pub const NAMESPACE: &'static str = "idempotency-kit";

/// The connection handle of the `redis` crate.
#[verifier::external_type_specification]
#[verifier::external_body]
pub struct ExConnectionManager(redis::aio::ConnectionManager);

/// The error of the `redis` crate.
#[verifier::external_type_specification]
#[verifier::external_body]
pub struct ExRedisError(redis::RedisError);

/// `ConnectionManager::clone`. Trusted: the copy shares the connection of the
/// handle it was made from, so the two are one handle.
pub assume_specification[ <redis::aio::ConnectionManager as Clone>::clone ](
    manager: &redis::aio::ConnectionManager,
) -> (copy: redis::aio::ConnectionManager)
    ensures
        copy == *manager,
;

/// One argument of a Redis command.
#[derive(Debug, Clone, PartialEq, Eq)]
pub enum RedisArg {
    /// A key or a keyword.
    Text(String),
    /// A number.
    Int(i64),
    /// Raw bytes.
    Bytes(Vec<u8>),
}

/// The mathematical value of a [`RedisArg`].
pub enum RedisArgView {
    Text(Seq<char>),
    Int(int),
    Bytes(Seq<u8>),
}

impl View for RedisArg {
    type V = RedisArgView;

    open spec fn view(&self) -> RedisArgView {
        match self {
            RedisArg::Text(text) => RedisArgView::Text(text@),
            RedisArg::Int(number) => RedisArgView::Int(*number as int),
            RedisArg::Bytes(bytes) => RedisArgView::Bytes(bytes@),
        }
    }
}

/// A command for the Redis server.
#[derive(Debug, Clone, PartialEq, Eq)]
pub struct RedisCommand {
    /// The name of the command.
    pub name: String,
    /// Its arguments, in order.
    pub args: Vec<RedisArg>,
}

/// The mathematical value of a [`RedisCommand`].
pub struct RedisCommandView {
    pub name: Seq<char>,
    pub args: Seq<RedisArgView>,
}

impl View for RedisCommand {
    type V = RedisCommandView;

    open spec fn view(&self) -> RedisCommandView {
        RedisCommandView {
            name: self.name@,
            args: Seq::new(self.args@.len(), |i: int| self.args@[i]@),
        }
    }
}

/// The Redis key tracking the claim of a key: `"{namespace}:{scope}:{hex}"`.
pub open spec fn claim_key_text(key: KeyView) -> Seq<char> {
    NAMESPACE@ + ":"@ + key.text()
}

/// The Redis key holding the completed response: the claim key and `":resp"`.
pub open spec fn resp_key_text(key: KeyView) -> Seq<char> {
    claim_key_text(key) + ":resp"@
}

/// Whole seconds of a window of `ttl` nanoseconds, at least one and at most
/// what Redis can take.
pub open spec fn claim_ttl(ttl: nat) -> int {
    let secs = ttl as int / NANOS_PER_SEC as int;
    if secs < 1 {
        1
    } else if secs > i64::MAX {
        i64::MAX as int
    } else {
        secs
    }
}

/// `SET {claim key} 1 NX EX {ttl}`: set the claim key only if it is absent.
pub open spec fn set_command(key: KeyView, ttl: nat) -> RedisCommandView {
    RedisCommandView {
        name: "SET"@,
        args: seq![
            RedisArgView::Text(claim_key_text(key)),
            RedisArgView::Int(1),
            RedisArgView::Text("NX"@),
            RedisArgView::Text("EX"@),
            RedisArgView::Int(claim_ttl(ttl)),
        ],
    }
}

/// `GET {response key}`.
pub open spec fn get_command(key: KeyView) -> RedisCommandView {
    RedisCommandView { name: "GET"@, args: seq![RedisArgView::Text(resp_key_text(key))] }
}

/// `TTL {claim key}`.
pub open spec fn ttl_command(key: KeyView) -> RedisCommandView {
    RedisCommandView { name: "TTL"@, args: seq![RedisArgView::Text(claim_key_text(key))] }
}

/// The window of a response: what is left of the claim's, at least a second.
pub open spec fn response_ttl(remaining: int) -> int {
    if remaining < 1 {
        1
    } else {
        remaining
    }
}

/// `SETEX {response key} {ttl} {response}`.
pub open spec fn setex_command(key: KeyView, remaining: int, response: Seq<u8>) -> RedisCommandView {
    RedisCommandView {
        name: "SETEX"@,
        args: seq![
            RedisArgView::Text(resp_key_text(key)),
            RedisArgView::Int(response_ttl(remaining)),
            RedisArgView::Bytes(response),
        ],
    }
}

/// `DEL {claim key} {response key}`.
pub open spec fn del_command(key: KeyView) -> RedisCommandView {
    RedisCommandView {
        name: "DEL"@,
        args: seq![
            RedisArgView::Text(claim_key_text(key)),
            RedisArgView::Text(resp_key_text(key)),
        ],
    }
}

/// What a claim comes to, given whether the claim key was set and the
/// response found, if one was asked for.
pub open spec fn outcome(claimed: bool, response: Option<Seq<u8>>) -> ClaimView {
    if claimed {
        ClaimView::First
    } else {
        match response {
            Some(response) => ClaimView::Replay(response),
            None => ClaimView::InFlight,
        }
    }
}

/// What to do once the server has answered `SET`.
#[derive(Debug)]
pub enum AfterSet {
    /// The claim is decided.
    Return(Result<Claim, StoreError>),
    /// The claim is held elsewhere: ask for the response.
    Send(RedisCommand),
}

/// What to do once the server has answered `TTL`.
#[derive(Debug)]
pub enum AfterTtl {
    /// The response cannot be recorded.
    Return(StoreError),
    /// Record the response.
    Send(RedisCommand),
}

/// Process-shared idempotency store backed by Redis.
///
/// Claims are `SET key val NX EX ttl`, an atomic compare-and-set, so
/// multi-instance deployments agree on a single owner per key. The completed
/// response is stored under `{key}:resp` with the claim key's remaining TTL,
/// so claim and response windows lapse together.
pub struct RedisStore {
    conn: ConnectionManager,
}

impl Clone for RedisStore {
    fn clone(&self) -> (copy: Self)
        ensures
            copy.connection() == self.connection(),
    {
        RedisStore { conn: self.conn.clone() }
    }
}

impl RedisStore {
    /// The connection the store uses.
    pub closed spec fn connection(self) -> ConnectionManager {
        self.conn
    }

    /// Create a store sharing the given connection manager.
    #[must_use]
    pub fn new(conn: ConnectionManager) -> (store: Self)
        ensures
            store.connection() == conn,
    {
        RedisStore { conn }
    }

    /// A clone of the underlying connection manager, so one multiplexed
    /// connection per process can back several stores or caches.
    #[must_use]
    pub fn connection_manager(&self) -> (manager: ConnectionManager)
        ensures
            manager == self.connection(),
    {
        self.conn.clone()
    }

    /// The Redis key tracking the claim: `"{namespace}:{scope}:{hex}"`.
    pub fn claim_key(key: &IdempotencyKey) -> (text: String)
        ensures
            text@ == claim_key_text(key@),
    {
        let mut text = NAMESPACE.to_owned();
        text.append(":");
        text.append(key.as_str());
        text
    }

    /// The Redis key holding the completed response. Disjoint from every
    /// [`claim_key`](Self::claim_key), which ends in a hexadecimal digit.
    pub fn resp_key(key: &IdempotencyKey) -> (text: String)
        ensures
            text@ == resp_key_text(key@),
    {
        let mut text = Self::claim_key(key);
        text.append(":resp");
        text
    }

    /// The command that starts a claim of `key` for `ttl`. Its reply goes to
    /// [`after_set`](Self::after_set).
    pub fn claim_command(key: &IdempotencyKey, ttl: Span) -> (command: RedisCommand)
        ensures
            command@ == set_command(key@, ttl@),
    {
        let command = RedisCommand {
            name: "SET".to_owned(),
            args: vec![
                RedisArg::Text(Self::claim_key(key)),
                RedisArg::Int(1),
                RedisArg::Text("NX".to_owned()),
                RedisArg::Text("EX".to_owned()),
                RedisArg::Int(claim_ttl_secs(ttl)),
            ],
        };
        assert(command@.args =~= set_command(key@, ttl@).args);
        command
    }

    /// What follows the reply to `SET`, which is nothing if the claim key was
    /// already set. A success wins the claim outright; otherwise the response
    /// is asked for, and its reply goes to [`after_get`](Self::after_get).
    pub fn after_set(key: &IdempotencyKey, reply: Result<Option<String>, StoreError>) -> (next:
        AfterSet)
        ensures
            match reply {
                Ok(Some(_)) => {
                    &&& next matches AfterSet::Return(Ok(claim))
                    &&& claim@ == outcome(true, None)
                },
                Ok(None) => {
                    &&& next matches AfterSet::Send(command)
                    &&& command@ == get_command(key@)
                },
                Err(error) => {
                    &&& next matches AfterSet::Return(Err(returned))
                    &&& returned@ == error@
                },
            },
    {
        match reply {
            Ok(Some(_)) => AfterSet::Return(Ok(claim_outcome(true, None))),
            Ok(None) => {
                let command = RedisCommand {
                    name: "GET".to_owned(),
                    args: vec![RedisArg::Text(Self::resp_key(key))],
                };
                assert(command@.args =~= get_command(key@).args);
                AfterSet::Send(command)
            },
            Err(error) => AfterSet::Return(Err(error)),
        }
    }

    /// What a claim held elsewhere comes to, given the reply to `GET`: a
    /// completed response replays, everything else is an unfinished
    /// collision.
    pub fn after_get(reply: Result<Option<Vec<u8>>, StoreError>) -> (result: Result<
        Claim,
        StoreError,
    >)
        ensures
            match (reply, result) {
                (Ok(Some(response)), Ok(claim)) => claim@ == outcome(false, Some(response@)),
                (Ok(None), Ok(claim)) => claim@ == outcome(false, None),
                (Err(error), Err(returned)) => returned@ == error@,
                _ => false,
            },
    {
        match reply {
            Ok(response) => Ok(claim_outcome(false, response)),
            Err(error) => Err(error),
        }
    }

    /// The command that starts recording a response for `key`: it asks for
    /// the claim's remaining window. Its reply goes to
    /// [`after_ttl`](Self::after_ttl).
    pub fn complete_command(key: &IdempotencyKey) -> (command: RedisCommand)
        ensures
            command@ == ttl_command(key@),
    {
        let command = RedisCommand {
            name: "TTL".to_owned(),
            args: vec![RedisArg::Text(Self::claim_key(key))],
        };
        assert(command@.args =~= ttl_command(key@).args);
        command
    }

    /// What follows the reply to `TTL`: the response is recorded with the
    /// claim's remaining window, so that both lapse together. The reply to
    /// the command is the outcome of recording.
    pub fn after_ttl(key: &IdempotencyKey, response: Vec<u8>, reply: Result<i64, StoreError>) -> (next:
        AfterTtl)
        ensures
            match reply {
                Ok(remaining) => {
                    &&& next matches AfterTtl::Send(command)
                    &&& command@ == setex_command(key@, remaining as int, response@)
                },
                Err(error) => {
                    &&& next matches AfterTtl::Return(returned)
                    &&& returned@ == error@
                },
            },
    {
        match reply {
            Ok(remaining) => {
                let command = RedisCommand {
                    name: "SETEX".to_owned(),
                    args: vec![
                        RedisArg::Text(Self::resp_key(key)),
                        RedisArg::Int(response_ttl_secs(remaining)),
                        RedisArg::Bytes(response),
                    ],
                };
                assert(command@.args =~= setex_command(key@, remaining as int, response@).args);
                AfterTtl::Send(command)
            },
            Err(error) => AfterTtl::Return(error),
        }
    }

    /// The command that releases `key`: claim and response are deleted. Its
    /// reply goes to [`after_del`](Self::after_del).
    pub fn release_command(key: &IdempotencyKey) -> (command: RedisCommand)
        ensures
            command@ == del_command(key@),
    {
        let command = RedisCommand {
            name: "DEL".to_owned(),
            args: vec![
                RedisArg::Text(Self::claim_key(key)),
                RedisArg::Text(Self::resp_key(key)),
            ],
        };
        assert(command@.args =~= del_command(key@).args);
        command
    }

    /// The outcome of a release, given the reply to `DEL`: how many keys were
    /// deleted does not matter.
    pub fn after_del(reply: Result<i64, StoreError>) -> (result: Result<(), StoreError>)
        ensures
            match reply {
                Ok(_) => result is Ok,
                Err(error) => result matches Err(returned) && returned@ == error@,
            },
    {
        match reply {
            Ok(_) => Ok(()),
            Err(error) => Err(error),
        }
    }
}

/// TTL in whole seconds for a claim, floored at 1 so a zero TTL cannot
/// produce an instant-expire claim (`EX 0` would be rejected by Redis).
pub fn claim_ttl_secs(ttl: Span) -> (secs: i64)
    ensures
        secs == claim_ttl(ttl@),
{
    let secs: u64 = ttl.as_secs();
    if secs > i64::MAX as u64 {
        i64::MAX
    } else if secs < 1 {
        1
    } else {
        secs as i64
    }
}

/// TTL in whole seconds for a stored response: the claim key's remaining
/// TTL. Redis reports `-2` (missing) or `-1` (no expiry) for degenerate
/// cases; both floor to a 1-second window so a completed response is
/// still observable briefly.
pub fn response_ttl_secs(remaining: i64) -> (secs: i64)
    ensures
        secs == response_ttl(remaining as int),
{
    if remaining < 1 {
        1
    } else {
        remaining
    }
}

/// Pure claim decision, shared by the Redis round-trips: a successful
/// `SET NX` wins outright; otherwise an existing response replays and
/// everything else is an in-flight collision.
pub fn claim_outcome(claimed: bool, response: Option<Vec<u8>>) -> (claim: Claim)
    ensures
        claim@ == outcome(
            claimed,
            match response {
                Some(bytes) => Some(bytes@),
                None => None,
            },
        ),
{
    if claimed {
        Claim::First
    } else if let Some(response) = response {
        Claim::Replay(response)
    } else {
        Claim::InFlight
    }
}

/// The store error for a failure of the Redis client: its diagnostic is the
/// message the client's error displays.
pub fn backend(err: RedisError) -> (error: StoreError)
    ensures
        error matches StoreError::Backend(diagnostic)
            && vstd::string::to_string_from_display_ensures::<RedisError>(&err, diagnostic),
{
    StoreError::Backend(err.to_string())
}

/// Claim keys and response keys never meet: no claim key is a response key,
/// of the same key or of any other, and none ends in `":resp"`.
pub proof fn law_claim_and_response_keys_are_disjoint(a: KeyView, b: KeyView)
    requires
        a.wf(),
    ensures
        claim_key_text(a) != resp_key_text(b),
        !":resp"@.is_suffix_of(claim_key_text(a)),
{
    reveal_strlit(":resp");
    assert(crate::key::is_hex_char(a.hex[63]));
    assert(claim_key_text(a).last() == a.hex[63]);
    assert(resp_key_text(b).last() == 'p');
    assert(":resp"@.last() == 'p');
}

/// Distinct keys have distinct claim keys and distinct response keys.
pub proof fn law_redis_keys_are_injective(a: KeyView, b: KeyView)
    requires
        a.wf(),
        b.wf(),
        claim_key_text(a) == claim_key_text(b) || resp_key_text(a) == resp_key_text(b),
    ensures
        a.scope == b.scope,
        a.hex == b.hex,
{
    let prefix = NAMESPACE@ + ":"@;
    let n = prefix.len() as int;
    let len = claim_key_text(a).len() as int;
    if resp_key_text(a) == resp_key_text(b) {
        assert(claim_key_text(a) =~= resp_key_text(a).take(len));
        assert(resp_key_text(a).len() == resp_key_text(b).len());
        assert(claim_key_text(b) =~= resp_key_text(b).take(len));
    }
    assert(a.text() =~= claim_key_text(a).skip(n));
    assert(b.text() =~= claim_key_text(b).skip(n));
    crate::key::law_text_determines_key(a, b);
}

/// The operations agree on the keys they use: a claim asks for the response
/// that completing records, completing asks for the window of the key that
/// claiming sets, and releasing deletes what the two wrote.
pub proof fn law_operations_agree_on_keys(
    key: KeyView,
    ttl: nat,
    remaining: int,
    response: Seq<u8>,
)
    ensures
        get_command(key).args[0] == setex_command(key, remaining, response).args[0],
        ttl_command(key).args[0] == set_command(key, ttl).args[0],
        del_command(key).args == seq![
            set_command(key, ttl).args[0],
            setex_command(key, remaining, response).args[0],
        ],
{
}

/// No window is instant-expire: a claim's lasts at least a second and, above
/// that, no longer than asked for. A response gets what is left of the
/// claim's, so that the two lapse together, and at least a second.
pub proof fn law_windows_are_floored(ttl: nat, remaining: int)
    ensures
        claim_ttl(ttl) >= 1,
        ttl >= NANOS_PER_SEC ==> claim_ttl(ttl) * NANOS_PER_SEC <= ttl,
        NANOS_PER_SEC <= ttl <= i64::MAX * NANOS_PER_SEC ==> ttl < (claim_ttl(ttl) + 1)
            * NANOS_PER_SEC,
        response_ttl(remaining) >= 1,
        remaining >= 1 ==> response_ttl(remaining) == remaining,
{
}

/// The Redis keys, spelled out.
pub proof fn law_redis_keys_are_spelled_out(key: &IdempotencyKey, claim: String, resp: String)
    requires
        call_ensures(RedisStore::claim_key, (key,), claim),
        call_ensures(RedisStore::resp_key, (key,), resp),
    ensures
        claim@ == "idempotency-kit:"@ + key@.scope + ":"@ + key@.hex,
        resp@ == "idempotency-kit:"@ + key@.scope + ":"@ + key@.hex + ":resp"@,
        claim@ == claim_key_text(key@),
        resp@ == resp_key_text(key@),
{
    reveal_strlit("idempotency-kit");
    reveal_strlit("idempotency-kit:");
    reveal_strlit(":");
    assert("idempotency-kit:"@ =~= "idempotency-kit"@ + ":"@);
    assert(":"@ =~= seq![':']);
    assert(claim@ =~= "idempotency-kit:"@ + key@.scope + ":"@ + key@.hex);
    assert(resp@ =~= "idempotency-kit:"@ + key@.scope + ":"@ + key@.hex + ":resp"@);
}

/// A claim is a compare-and-set, whatever the key and the window: the command
/// is `SET {claim key} 1 NX EX {seconds}`. The seconds are the whole ones of
/// the window, at least one, and at most what an `i64` holds.
pub proof fn law_claim_command_in_full(
    key: &IdempotencyKey,
    ttl: Span,
    claim: String,
    command: RedisCommand,
)
    requires
        call_ensures(RedisStore::claim_key, (key,), claim),
        call_ensures(RedisStore::claim_command, (key, ttl), command),
    ensures
        command.name@ == "SET"@,
        command.args@.len() == 5,
        command.args@[0] matches RedisArg::Text(text) && text@ == claim@,
        command.args@[1] == RedisArg::Int(1),
        command.args@[2] matches RedisArg::Text(text) && text@ == "NX"@,
        command.args@[3] matches RedisArg::Text(text) && text@ == "EX"@,
        command.args@[4] matches RedisArg::Int(secs) && {
            &&& 1 <= secs
            &&& ttl@ < 1_000_000_000 ==> secs == 1
            &&& 1_000_000_000 <= ttl@ ==> secs * 1_000_000_000 <= ttl@
            &&& 1_000_000_000 <= ttl@ && secs < i64::MAX ==> ttl@ < (secs + 1) * 1_000_000_000
        },
{
    let args = set_command(key@, ttl@).args;
    assert(command@.args.len() == 5);
    assert forall|i: int| 0 <= i < 5 implies #[trigger] command.args@[i]@ == args[i] by {
        assert(command@.args[i] == args[i]);
    }
    assert(command.args@[0]@ is Text && command.args@[1]@ is Int && command.args@[2]@ is Text
        && command.args@[3]@ is Text && command.args@[4]@ is Int);
}

/// The seconds of a claim's window, in numbers.
pub proof fn law_claim_seconds(ttl: Span, secs: i64)
    requires
        call_ensures(claim_ttl_secs, (ttl,), secs),
    ensures
        secs == claim_ttl(ttl@),
        1 <= secs,
        ttl@ < 1_000_000_000 ==> secs == 1,
        1_000_000_000 <= ttl@ ==> secs * 1_000_000_000 <= ttl@,
        1_000_000_000 <= ttl@ && secs < i64::MAX ==> ttl@ < (secs + 1) * 1_000_000_000,
{
}

/// What follows `SET`: a success is the first claim, a failure is passed on,
/// and nothing leads to `GET {response key}`, whose outcome replays whole.
pub proof fn law_claim_replies_in_full(
    key: &IdempotencyKey,
    resp: String,
    reply: Result<Option<String>, StoreError>,
    next: AfterSet,
    found: Result<Option<Vec<u8>>, StoreError>,
    result: Result<Claim, StoreError>,
)
    requires
        call_ensures(RedisStore::resp_key, (key,), resp),
        call_ensures(RedisStore::after_set, (key, reply), next),
        call_ensures(RedisStore::after_get, (found,), result),
    ensures
        match reply {
            Ok(Some(_)) => next == AfterSet::Return(Ok(Claim::First)),
            Ok(None) => {
                &&& next matches AfterSet::Send(command)
                &&& command.name@ == "GET"@
                &&& command.args@.len() == 1
                &&& command.args@[0] matches RedisArg::Text(text)
                &&& text@ == resp@
            },
            Err(error) => next matches AfterSet::Return(Err(passed)) && passed@ == error@,
        },
        match found {
            Ok(Some(response)) => result matches Ok(Claim::Replay(replayed)) && replayed@
                == response@,
            Ok(None) => result == Ok::<Claim, StoreError>(Claim::InFlight),
            Err(error) => result matches Err(passed) && passed@ == error@,
        },
{
    if let AfterSet::Send(command) = next {
        assert(command@.args == get_command(key@).args);
        assert(command@.args[0] == get_command(key@).args[0]);
        assert(command.args@[0]@ is Text);
    }
}

/// The pure claim decision: `SET NX` wins outright; without it a response
/// replays whole, and no response is a collision.
pub proof fn law_claim_decision(claimed: bool, response: Option<Vec<u8>>, claim: Claim)
    requires
        call_ensures(claim_outcome, (claimed, response), claim),
    ensures
        claim is First <==> claimed,
        claim is InFlight <==> !claimed && response is None,
        !claimed && response is Some ==> (claim matches Claim::Replay(replayed) && replayed@
            == response->0@),
{
}

/// Recording a response asks for the claim key's remaining window and keeps
/// exactly that response, under the response key, for exactly as many seconds
/// as are left, or for one if none are.
pub proof fn law_completion_commands_in_full(
    key: &IdempotencyKey,
    claim: String,
    resp: String,
    ask: RedisCommand,
    response: Vec<u8>,
    reply: Result<i64, StoreError>,
    next: AfterTtl,
)
    requires
        call_ensures(RedisStore::claim_key, (key,), claim),
        call_ensures(RedisStore::resp_key, (key,), resp),
        call_ensures(RedisStore::complete_command, (key,), ask),
        call_ensures(RedisStore::after_ttl, (key, response, reply), next),
    ensures
        ask.name@ == "TTL"@,
        ask.args@.len() == 1,
        ask.args@[0] matches RedisArg::Text(text) && text@ == claim@,
        match reply {
            Ok(remaining) => {
                &&& next matches AfterTtl::Send(command)
                &&& command.name@ == "SETEX"@
                &&& command.args@.len() == 3
                &&& command.args@[0] matches RedisArg::Text(text)
                &&& text@ == resp@
                &&& command.args@[1] matches RedisArg::Int(secs)
                &&& remaining >= 1 ==> secs == remaining
                &&& remaining < 1 ==> secs == 1
                &&& command.args@[2] matches RedisArg::Bytes(kept)
                &&& kept@ == response@
            },
            Err(error) => next matches AfterTtl::Return(passed) && passed@ == error@,
        },
{
    assert(ask@.args == ttl_command(key@).args);
    assert(ask@.args[0] == ttl_command(key@).args[0]);
    assert(ask.args@[0]@ is Text);
    if let AfterTtl::Send(command) = next {
        if let Ok(remaining) = reply {
            let args = setex_command(key@, remaining as int, response@).args;
            assert(command@.args.len() == 3);
            assert forall|i: int| 0 <= i < 3 implies #[trigger] command.args@[i]@ == args[i] by {
                assert(command@.args[i] == args[i]);
            }
            assert(command.args@[0]@ is Text && command.args@[1]@ is Int && command.args@[2]@
                is Bytes);
        }
    }
}

/// The seconds a response is kept, in numbers.
pub proof fn law_response_seconds(remaining: i64, secs: i64)
    requires
        call_ensures(response_ttl_secs, (remaining,), secs),
    ensures
        remaining >= 1 ==> secs == remaining,
        remaining < 1 ==> secs == 1,
{
}

/// Releasing deletes the claim key and the response key, and nothing else.
/// Whatever the number deleted, it has succeeded; a failure is passed on.
pub proof fn law_release_command_in_full(
    key: &IdempotencyKey,
    claim: String,
    resp: String,
    command: RedisCommand,
    reply: Result<i64, StoreError>,
    result: Result<(), StoreError>,
)
    requires
        call_ensures(RedisStore::claim_key, (key,), claim),
        call_ensures(RedisStore::resp_key, (key,), resp),
        call_ensures(RedisStore::release_command, (key,), command),
        call_ensures(RedisStore::after_del, (reply,), result),
    ensures
        command.name@ == "DEL"@,
        command.args@.len() == 2,
        command.args@[0] matches RedisArg::Text(text) && text@ == claim@,
        command.args@[1] matches RedisArg::Text(text) && text@ == resp@,
        match reply {
            Ok(_) => result is Ok,
            Err(error) => result matches Err(passed) && passed@ == error@,
        },
{
    let args = del_command(key@).args;
    assert(command@.args.len() == 2);
    assert forall|i: int| 0 <= i < 2 implies #[trigger] command.args@[i]@ == args[i] by {
        assert(command@.args[i] == args[i]);
    }
    assert(command.args@[0]@ is Text && command.args@[1]@ is Text);
}

/// A store and its copies hand out the connection that the store was made
/// with.
pub proof fn law_one_connection(
    conn: ConnectionManager,
    store: RedisStore,
    copy: RedisStore,
    manager: ConnectionManager,
)
    requires
        call_ensures(RedisStore::new, (conn,), store),
        call_ensures(<RedisStore as Clone>::clone, (&store,), copy),
        call_ensures(RedisStore::connection_manager, (&copy,), manager),
    ensures
        manager == conn,
{
}

/// A failure of the client is a backend failure with the message it displays.
pub proof fn law_client_failures_are_backend_failures(err: RedisError, error: StoreError)
    requires
        call_ensures(backend, (err,), error),
    ensures
        error matches StoreError::Backend(diagnostic)
            && vstd::string::to_string_from_display_ensures::<RedisError>(&err, diagnostic),
{
}

/// The value of a command is the command, argument for argument.
pub proof fn law_commands_are_told_apart(command: RedisCommand, i: int)
    requires
        0 <= i < command.args@.len(),
    ensures
        command@.name == command.name@,
        command@.args.len() == command.args@.len(),
        match command.args@[i] {
            RedisArg::Text(text) => command@.args[i] == RedisArgView::Text(text@),
            RedisArg::Int(number) => command@.args[i] == RedisArgView::Int(number as int),
            RedisArg::Bytes(bytes) => command@.args[i] == RedisArgView::Bytes(bytes@),
        },
{
}

} // verus!
