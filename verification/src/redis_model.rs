//! A Redis server as a mathematical state, and what the store's commands come
//! to on it.
//!
//! The model's clock counts whole seconds, as the windows sent to the server
//! and the remaining windows it reports do.

use crate::error::StoreError;
use crate::key::IdempotencyKey;
use crate::redis_store::{
    AfterSet, AfterTtl, RedisArgView, RedisCommand, RedisCommandView, RedisStore,
};
use crate::span::Span;
use vstd::prelude::*;

verus! {

/// What the server holds under a name: a value, until its deadline.
pub struct Entry {
    pub value: RedisArgView,
    pub deadline: int,
}

/// What the server replies.
pub enum Reply {
    /// Done as asked.
    Done,
    /// There is nothing, or nothing was done.
    Nil,
    /// The value asked for.
    Value(RedisArgView),
    /// The number asked for.
    Number(int),
    /// The command is not understood.
    Rejected,
}

/// The state of the server.
pub struct Server {
    pub entries: Map<Seq<char>, Entry>,
}

impl Server {
    /// Whether the name is held at `now`: it was set and has not expired.
    pub open spec fn holds(self, name: Seq<char>, now: int) -> bool {
        self.entries.contains_key(name) && now < self.entries[name].deadline
    }

    /// `SET {name} {value} NX EX {secs}`: set the name if it is not held.
    pub open spec fn set_if_absent(
        self,
        name: Seq<char>,
        value: RedisArgView,
        secs: int,
        now: int,
    ) -> (Reply, Server) {
        if self.holds(name, now) {
            (Reply::Nil, self)
        } else {
            (Reply::Done, self.set(name, value, now + secs))
        }
    }

    /// The server with the name set to the value until the deadline.
    pub open spec fn set(self, name: Seq<char>, value: RedisArgView, deadline: int) -> Server {
        Server { entries: self.entries.insert(name, Entry { value, deadline }) }
    }

    /// The server without the names among the arguments.
    pub open spec fn without(self, names: Seq<RedisArgView>) -> Server {
        Server {
            entries: self.entries.restrict(
                Set::new(|name: Seq<char>| !names.contains(RedisArgView::Text(name))),
            ),
        }
    }

    /// What the server replies to a command at `now`, and the state it is
    /// left in. It understands `SET` with `NX` and `EX`, `GET`, `TTL`, `SETEX`
    /// and `DEL`, and rejects windows of less than a second.
    pub open spec fn serve(self, command: RedisCommandView, now: int) -> (Reply, Server) {
        let args = command.args;
        if command.name == "SET"@ && args.len() == 5 && args[0] is Text && args[2]
            == RedisArgView::Text("NX"@) && args[3] == RedisArgView::Text("EX"@) && args[4] is Int
            && args[4]->Int_0 >= 1 {
            self.set_if_absent(args[0]->Text_0, args[1], args[4]->Int_0, now)
        } else if command.name == "GET"@ && args.len() == 1 && args[0] is Text {
            let name = args[0]->Text_0;
            (
                if self.holds(name, now) {
                    Reply::Value(self.entries[name].value)
                } else {
                    Reply::Nil
                },
                self,
            )
        } else if command.name == "TTL"@ && args.len() == 1 && args[0] is Text {
            let name = args[0]->Text_0;
            (
                Reply::Number(
                    if self.holds(name, now) {
                        self.entries[name].deadline - now
                    } else {
                        -2
                    },
                ),
                self,
            )
        } else if command.name == "SETEX"@ && args.len() == 3 && args[0] is Text && args[1] is Int
            && args[1]->Int_0 >= 1 {
            (Reply::Done, self.set(args[0]->Text_0, args[2], now + args[1]->Int_0))
        } else if command.name == "DEL"@ {
            (
                Reply::Number(
                    self.entries.dom().filter(
                        |name: Seq<char>|
                            self.holds(name, now) && args.contains(RedisArgView::Text(name)),
                    ).len() as int,
                ),
                self.without(args),
            )
        } else {
            (Reply::Rejected, self)
        }
    }
}

/// The names of the commands are told apart.
proof fn lemma_command_names()
    ensures
        "SET"@ != "GET"@,
        "SET"@ != "TTL"@,
        "SET"@ != "SETEX"@,
        "SET"@ != "DEL"@,
        "GET"@ != "TTL"@,
        "GET"@ != "SETEX"@,
        "GET"@ != "DEL"@,
        "TTL"@ != "SETEX"@,
        "TTL"@ != "DEL"@,
        "SETEX"@ != "DEL"@,
{
    reveal_strlit("SET");
    reveal_strlit("GET");
    reveal_strlit("TTL");
    reveal_strlit("SETEX");
    reveal_strlit("DEL");
    assert("SET"@[0] == 'S' && "GET"@[0] == 'G' && "TTL"@[0] == 'T' && "DEL"@[0] == 'D');
    assert("SETEX"@.len() == 5 && "SET"@.len() == 3);
}

/// The claim key and the response key of one key differ.
proof fn lemma_two_names(key: &IdempotencyKey, claim: String, resp: String)
    requires
        call_ensures(RedisStore::claim_key, (key,), claim),
        call_ensures(RedisStore::resp_key, (key,), resp),
    ensures
        claim@ != resp@,
{
    reveal_strlit(":resp");
    crate::redis_store::law_redis_keys_are_spelled_out(key, claim, resp);
    assert(resp@.len() == claim@.len() + 5);
}

/// A claim command sets the claim key if and only if it is not held. Then the
/// key is held from that moment on for the whole seconds of the window, at
/// least one, and no other name changes. If it is held, nothing changes.
pub proof fn law_claim_is_compare_and_set(
    server: Server,
    now: int,
    key: &IdempotencyKey,
    ttl: Span,
    claim: String,
    command: RedisCommand,
)
    requires
        call_ensures(RedisStore::claim_key, (key,), claim),
        call_ensures(RedisStore::claim_command, (key, ttl), command),
    ensures
        ({
            let (reply, after) = server.serve(command@, now);
            let whole = ttl@ as int / 1_000_000_000;
            &&& server.holds(claim@, now) ==> reply is Nil && after == server
            &&& !server.holds(claim@, now) ==> {
                &&& reply is Done
                &&& forall|name: Seq<char>|
                    name != claim@ ==> #[trigger] after.entries.index_opt(name)
                        == server.entries.index_opt(name)
                &&& ttl@ < 1_000_000_000 ==> forall|t: int|
                    after.holds(claim@, t) <==> t < now + 1
                &&& 1_000_000_000 <= ttl@ && whole < i64::MAX ==> forall|t: int|
                    after.holds(claim@, t) <==> t < now + whole
                &&& i64::MAX <= whole ==> forall|t: int|
                    after.holds(claim@, t) <==> t < now + i64::MAX
            }
        }),
{
    lemma_command_names();
    let args = crate::redis_store::set_command(key@, ttl@).args;
    assert(command@.args == args);
    assert(args[2] == RedisArgView::Text("NX"@));
}

/// Of any two claims of a key, the second before the first one's window has
/// lapsed, only the first sets the claim key.
pub proof fn law_one_claim_wins(
    server: Server,
    now: int,
    later: int,
    key: &IdempotencyKey,
    ttl: Span,
    first: RedisCommand,
    later_ttl: Span,
    second: RedisCommand,
)
    requires
        call_ensures(RedisStore::claim_command, (key, ttl), first),
        call_ensures(RedisStore::claim_command, (key, later_ttl), second),
        server.serve(first@, now).0 is Done,
        now <= later,
        later == now || (later - now) * 1_000_000_000 + 1_000_000_000 <= ttl@,
        later - now < i64::MAX,
    ensures
        server.serve(first@, now).1.serve(second@, later) == (
            Reply::Nil,
            server.serve(first@, now).1,
        ),
{
    lemma_command_names();
    assert(first@.args == crate::redis_store::set_command(key@, ttl@).args);
    assert(second@.args == crate::redis_store::set_command(key@, later_ttl@).args);
    assert(first@.args[0] == second@.args[0]);
}

/// A claim that finds the claim key held asks for the response: it gets the
/// one that is held under the response key, or nothing, and changes nothing.
pub proof fn law_held_claim_asks_for_the_response(
    server: Server,
    now: int,
    key: &IdempotencyKey,
    resp: String,
    fetch: RedisCommand,
)
    requires
        call_ensures(RedisStore::resp_key, (key,), resp),
        call_ensures(
            RedisStore::after_set,
            (key, Ok::<Option<String>, StoreError>(None)),
            AfterSet::Send(fetch),
        ),
    ensures
        server.serve(fetch@, now) == (
            if server.holds(resp@, now) {
                Reply::Value(server.entries[resp@].value)
            } else {
                Reply::Nil
            },
            server,
        ),
{
    lemma_command_names();
    assert(fetch@.args == crate::redis_store::get_command(key@).args);
}

/// Claim and response lapse together. A response recorded while the claim key
/// is held is what every claim of the key gets until the claim key's deadline,
/// and from that deadline on the key can be claimed again and the response is
/// gone.
pub proof fn law_recorded_response_replays_until_the_claim_lapses(
    server: Server,
    now: int,
    key: &IdempotencyKey,
    claim: String,
    ask: RedisCommand,
    remaining: i64,
    response: Vec<u8>,
    record: RedisCommand,
    later: int,
    later_ttl: Span,
    again: RedisCommand,
    fetch: RedisCommand,
)
    requires
        call_ensures(RedisStore::claim_key, (key,), claim),
        server.holds(claim@, now),
        call_ensures(RedisStore::complete_command, (key,), ask),
        server.serve(ask@, now).0 == Reply::Number(remaining as int),
        call_ensures(
            RedisStore::after_ttl,
            (key, response, Ok::<i64, StoreError>(remaining)),
            AfterTtl::Send(record),
        ),
        call_ensures(RedisStore::claim_command, (key, later_ttl), again),
        call_ensures(
            RedisStore::after_set,
            (key, Ok::<Option<String>, StoreError>(None)),
            AfterSet::Send(fetch),
        ),
        now <= later,
    ensures
        ({
            let deadline = server.entries[claim@].deadline;
            let (reply, done) = server.serve(record@, now);
            &&& reply is Done
            &&& later < deadline ==> done.serve(again@, later) == (Reply::Nil, done)
            &&& later < deadline ==> done.serve(fetch@, later) == (
                Reply::Value(RedisArgView::Bytes(response@)),
                done,
            )
            &&& deadline <= later ==> done.serve(again@, later).0 is Done
            &&& deadline <= later ==> done.serve(fetch@, later).0 is Nil
        }),
{
    lemma_command_names();
    reveal_strlit(":resp");
    assert(ask@.args == crate::redis_store::ttl_command(key@).args);
    assert(record@.args == crate::redis_store::setex_command(
        key@,
        remaining as int,
        response@,
    ).args);
    assert(again@.args == crate::redis_store::set_command(key@, later_ttl@).args);
    assert(fetch@.args == crate::redis_store::get_command(key@).args);
    let resp = crate::redis_store::resp_key_text(key@);
    assert(resp.len() == claim@.len() + 5);
}

/// A response recorded after the claim key has lapsed is kept for one second,
/// and the claim key stays free.
pub proof fn law_late_response_is_kept_for_a_second(
    server: Server,
    now: int,
    key: &IdempotencyKey,
    claim: String,
    resp: String,
    ask: RedisCommand,
    remaining: i64,
    response: Vec<u8>,
    record: RedisCommand,
)
    requires
        call_ensures(RedisStore::claim_key, (key,), claim),
        call_ensures(RedisStore::resp_key, (key,), resp),
        !server.holds(claim@, now),
        call_ensures(RedisStore::complete_command, (key,), ask),
        server.serve(ask@, now).0 == Reply::Number(remaining as int),
        call_ensures(
            RedisStore::after_ttl,
            (key, response, Ok::<i64, StoreError>(remaining)),
            AfterTtl::Send(record),
        ),
    ensures
        ({
            let (reply, done) = server.serve(record@, now);
            &&& reply is Done
            &&& forall|t: int| done.holds(resp@, t) <==> t < now + 1
            &&& done.entries[resp@].value == RedisArgView::Bytes(response@)
            &&& !done.holds(claim@, now)
        }),
{
    lemma_command_names();
    lemma_two_names(key, claim, resp);
    assert(ask@.args == crate::redis_store::ttl_command(key@).args);
    assert(record@.args == crate::redis_store::setex_command(
        key@,
        remaining as int,
        response@,
    ).args);
}

/// Releasing frees the key and forgets its response: neither name is held any
/// more, every other stays as it was, and the next claim sets the claim key.
pub proof fn law_release_frees_the_key(
    server: Server,
    now: int,
    key: &IdempotencyKey,
    claim: String,
    resp: String,
    command: RedisCommand,
    later: int,
    ttl: Span,
    again: RedisCommand,
)
    requires
        call_ensures(RedisStore::claim_key, (key,), claim),
        call_ensures(RedisStore::resp_key, (key,), resp),
        call_ensures(RedisStore::release_command, (key,), command),
        call_ensures(RedisStore::claim_command, (key, ttl), again),
    ensures
        ({
            let (reply, after) = server.serve(command@, now);
            &&& reply is Number
            &&& !after.entries.contains_key(claim@)
            &&& !after.entries.contains_key(resp@)
            &&& forall|name: Seq<char>|
                name != claim@ && name != resp@ ==> #[trigger] after.entries.index_opt(name)
                    == server.entries.index_opt(name)
            &&& after.serve(again@, later).0 is Done
        }),
{
    lemma_command_names();
    let args = command@.args;
    assert(args == crate::redis_store::del_command(key@).args);
    assert(args[0] == RedisArgView::Text(claim@));
    assert(args[1] == RedisArgView::Text(resp@));
    assert(again@.args == crate::redis_store::set_command(key@, ttl@).args);
    assert forall|name: Seq<char>| name != claim@ && name != resp@ implies !#[trigger] args.contains(
        RedisArgView::Text(name),
    ) by {
        assert(args.len() == 2);
    }
    let after = server.without(args);
    assert forall|name: Seq<char>| name != claim@ && name != resp@ implies
        #[trigger] after.entries.index_opt(name) == server.entries.index_opt(name) by {
        assert(!args.contains(RedisArgView::Text(name)));
    }
}

/// Distinct keys are independent: a command for one leaves the claim key and
/// the response key of the other alone.
pub proof fn law_redis_keys_are_independent(
    server: Server,
    now: int,
    key: &IdempotencyKey,
    other: &IdempotencyKey,
    ttl: Span,
    set: RedisCommand,
    response: Vec<u8>,
    remaining: i64,
    record: RedisCommand,
    del: RedisCommand,
    name: String,
)
    requires
        key@.wf(),
        other@.wf(),
        key@.text() != other@.text(),
        call_ensures(RedisStore::claim_command, (key, ttl), set),
        call_ensures(
            RedisStore::after_ttl,
            (key, response, Ok::<i64, StoreError>(remaining)),
            AfterTtl::Send(record),
        ),
        call_ensures(RedisStore::release_command, (key,), del),
        call_ensures(RedisStore::claim_key, (other,), name) || call_ensures(
            RedisStore::resp_key,
            (other,),
            name,
        ),
    ensures
        server.serve(set@, now).1.entries.index_opt(name@) == server.entries.index_opt(name@),
        server.serve(record@, now).1.entries.index_opt(name@) == server.entries.index_opt(name@),
        server.serve(del@, now).1.entries.index_opt(name@) == server.entries.index_opt(name@),
{
    lemma_command_names();
    crate::redis_store::law_claim_and_response_keys_are_disjoint(key@, other@);
    crate::redis_store::law_claim_and_response_keys_are_disjoint(other@, key@);
    let claim = crate::redis_store::claim_key_text(key@);
    let resp = crate::redis_store::resp_key_text(key@);
    if claim == name@ || resp == name@ {
        crate::redis_store::law_redis_keys_are_injective(key@, other@);
    }
    assert(name@ != claim && name@ != resp);
    assert(set@.args == crate::redis_store::set_command(key@, ttl@).args);
    assert(record@.args == crate::redis_store::setex_command(
        key@,
        remaining as int,
        response@,
    ).args);
    assert(del@.args == crate::redis_store::del_command(key@).args);
    assert(del@.args.len() == 2);
    assert(!del@.args.contains(RedisArgView::Text(name@)));
}

} // verus!
