use std::collections::HashMap;

use idempotency_kit::redis_store::{
    backend, claim_outcome, claim_ttl_secs, response_ttl_secs, AfterSet, AfterTtl, RedisArg,
    RedisCommand,
};
use idempotency_kit::{
    AfterClaim, Claim, IdempotencyError, IdempotencyExecutor, IdempotencyKey, RedisStore, Span,
    StoreError,
};

fn key(scope: &str, body: &[u8]) -> IdempotencyKey {
    IdempotencyKey::derive(scope, body).unwrap()
}

#[test]
fn keys_are_namespaced_and_suffix_disjoint() {
    let key = IdempotencyKey::derive("orders", b"payload").unwrap();
    let claim = RedisStore::claim_key(&key);
    let resp = RedisStore::resp_key(&key);
    assert_eq!(claim, format!("idempotency-kit:{}", key.as_str()));
    assert_eq!(resp, format!("{claim}:resp"));
    // The claim-key charset (scope excludes ':', hex is 64 chars)
    // guarantees no claim key ever ends in ":resp".
    assert!(!claim.ends_with(":resp"));
}

#[test]
fn claim_ttl_is_floored_at_one_second() {
    assert_eq!(claim_ttl_secs(Span::from_secs(0)), 1);
    assert_eq!(claim_ttl_secs(Span::from_millis(1_500)), 1);
    assert_eq!(claim_ttl_secs(Span::from_secs(300)), 300);
    // u64::MAX secs must not wrap the i64 cast.
    assert_eq!(claim_ttl_secs(Span::from_secs(u64::MAX)), i64::MAX);
}

#[test]
fn response_ttl_floors_degenerate_remaining_values() {
    assert_eq!(response_ttl_secs(-2), 1, "missing claim key");
    assert_eq!(response_ttl_secs(-1), 1, "claim key without expiry");
    assert_eq!(response_ttl_secs(0), 1);
    assert_eq!(response_ttl_secs(42), 42);
}

#[test]
fn claim_outcome_precedence() {
    assert_eq!(claim_outcome(true, None), Claim::First);
    // A successful SET NX wins even if a stale response lingers.
    assert_eq!(claim_outcome(true, Some(b"stale".to_vec())), Claim::First);
    assert_eq!(
        claim_outcome(false, Some(b"resp".to_vec())),
        Claim::Replay(b"resp".to_vec())
    );
    assert_eq!(claim_outcome(false, None), Claim::InFlight);
}

#[test]
fn commands_are_spelled_out() {
    let k = key("orders", b"");
    let claim = "idempotency-kit:orders:af1349b9f5f9a1a6a0404dea36dcc9499bcb25c9adc112b7cc9a93cae41f3262";
    let resp = format!("{claim}:resp");
    assert_eq!(
        RedisStore::claim_command(&k, Span::from_secs(30)),
        RedisCommand {
            name: "SET".into(),
            args: vec![
                RedisArg::Text(claim.into()),
                RedisArg::Int(1),
                RedisArg::Text("NX".into()),
                RedisArg::Text("EX".into()),
                RedisArg::Int(30),
            ],
        }
    );
    match RedisStore::after_set(&k, Ok(None)) {
        AfterSet::Send(command) => assert_eq!(
            command,
            RedisCommand {
                name: "GET".into(),
                args: vec![RedisArg::Text(resp.clone())],
            }
        ),
        AfterSet::Return(_) => panic!("the response must be asked for"),
    }
    assert_eq!(
        RedisStore::complete_command(&k),
        RedisCommand {
            name: "TTL".into(),
            args: vec![RedisArg::Text(claim.into())],
        }
    );
    match RedisStore::after_ttl(&k, vec![9, 8], Ok(17)) {
        AfterTtl::Send(command) => assert_eq!(
            command,
            RedisCommand {
                name: "SETEX".into(),
                args: vec![
                    RedisArg::Text(resp.clone()),
                    RedisArg::Int(17),
                    RedisArg::Bytes(vec![9, 8]),
                ],
            }
        ),
        AfterTtl::Return(_) => panic!("the response must be recorded"),
    }
    assert_eq!(
        RedisStore::release_command(&k),
        RedisCommand {
            name: "DEL".into(),
            args: vec![RedisArg::Text(claim.into()), RedisArg::Text(resp)],
        }
    );
}

#[test]
fn backend_failures_are_passed_on() {
    let k = key("orders", b"down");
    let down = || StoreError::Backend("down".into());
    assert!(matches!(
        RedisStore::after_set(&k, Err(down())),
        AfterSet::Return(Err(error)) if error == down()
    ));
    assert_eq!(RedisStore::after_get(Err(down())), Err(down()));
    assert!(matches!(
        RedisStore::after_ttl(&k, vec![], Err(down())),
        AfterTtl::Return(error) if error == down()
    ));
    assert_eq!(RedisStore::after_del(Err(down())), Err(down()));
    assert_eq!(RedisStore::after_del(Ok(2)), Ok(()));
}

#[test]
fn client_errors_become_backend_failures() {
    let error = || redis::RedisError::from((redis::ErrorKind::Client, "connection reset"));
    assert_eq!(
        backend(error()),
        StoreError::Backend(error().to_string())
    );
    assert!(backend(error()).to_string().contains("connection reset"));
}

#[test]
fn stores_share_the_connection_manager() {
    let runtime = tokio::runtime::Builder::new_current_thread()
        .enable_all()
        .build()
        .unwrap();
    let _context = runtime.enter();
    let manager = redis::Client::open("redis://127.0.0.1:1/")
        .unwrap()
        .get_connection_manager_lazy(redis::aio::ConnectionManagerConfig::new())
        .unwrap();
    let store = RedisStore::new(manager);
    let other = RedisStore::new(store.connection_manager());
    let copy = other.clone();
    assert_eq!(
        format!("{:?}", copy.connection_manager()),
        format!("{:?}", store.connection_manager())
    );
}

/// Just enough of a Redis server for the commands of the store, with a clock
/// that the test moves.
#[derive(Default)]
struct Server {
    now: i64,
    entries: HashMap<String, (Vec<u8>, i64)>,
}

impl Server {
    fn text(arg: &RedisArg) -> String {
        match arg {
            RedisArg::Text(text) => text.clone(),
            other => panic!("expected text, got {other:?}"),
        }
    }

    fn number(arg: &RedisArg) -> i64 {
        match arg {
            RedisArg::Int(value) => *value,
            other => panic!("expected a number, got {other:?}"),
        }
    }

    fn live(&self, key: &str) -> Option<&(Vec<u8>, i64)> {
        self.entries.get(key).filter(|entry| entry.1 > self.now)
    }

    fn set_nx(&mut self, command: &RedisCommand) -> Option<String> {
        assert_eq!(command.name, "SET");
        let name = Self::text(&command.args[0]);
        if self.live(&name).is_some() {
            return None;
        }
        let deadline = self.now + Self::number(&command.args[4]);
        self.entries.insert(name, (b"1".to_vec(), deadline));
        Some("OK".into())
    }

    fn get(&self, command: &RedisCommand) -> Option<Vec<u8>> {
        assert_eq!(command.name, "GET");
        self.live(&Self::text(&command.args[0]))
            .map(|entry| entry.0.clone())
    }

    fn ttl(&self, command: &RedisCommand) -> i64 {
        assert_eq!(command.name, "TTL");
        self.live(&Self::text(&command.args[0]))
            .map_or(-2, |entry| entry.1 - self.now)
    }

    fn setex(&mut self, command: &RedisCommand) {
        assert_eq!(command.name, "SETEX");
        let deadline = self.now + Self::number(&command.args[1]);
        match &command.args[2] {
            RedisArg::Bytes(value) => {
                self.entries
                    .insert(Self::text(&command.args[0]), (value.clone(), deadline));
            }
            other => panic!("expected bytes, got {other:?}"),
        }
    }

    fn del(&mut self, command: &RedisCommand) -> i64 {
        assert_eq!(command.name, "DEL");
        let mut deleted = 0;
        for arg in &command.args {
            if self.entries.remove(&Self::text(arg)).is_some() {
                deleted += 1;
            }
        }
        deleted
    }

    fn claim(&mut self, key: &IdempotencyKey, ttl: Span) -> Result<Claim, StoreError> {
        let reply = self.set_nx(&RedisStore::claim_command(key, ttl));
        match RedisStore::after_set(key, Ok(reply)) {
            AfterSet::Return(result) => result,
            AfterSet::Send(command) => RedisStore::after_get(Ok(self.get(&command))),
        }
    }

    fn complete(&mut self, key: &IdempotencyKey, response: Vec<u8>) -> Result<(), StoreError> {
        let remaining = self.ttl(&RedisStore::complete_command(key));
        match RedisStore::after_ttl(key, response, Ok(remaining)) {
            AfterTtl::Return(error) => Err(error),
            AfterTtl::Send(command) => {
                self.setex(&command);
                Ok(())
            }
        }
    }

    fn release(&mut self, key: &IdempotencyKey) -> Result<(), StoreError> {
        let deleted = self.del(&RedisStore::release_command(key));
        RedisStore::after_del(Ok(deleted))
    }
}

#[test]
fn first_claim_wins_then_replays_then_release_reopens() {
    let mut store = Server::default();
    let k = key("dist", b"order-42");

    assert!(matches!(
        store.claim(&k, Span::from_secs(60)).unwrap(),
        Claim::First
    ));
    assert!(matches!(
        store.claim(&k, Span::from_secs(60)).unwrap(),
        Claim::InFlight
    ));

    store.complete(&k, b"charge-ok".to_vec()).unwrap();
    assert!(
        matches!(store.claim(&k, Span::from_secs(60)).unwrap(), Claim::Replay(bytes) if bytes == b"charge-ok"),
        "the completed response must replay across callers"
    );

    store.release(&k).unwrap();
    assert!(matches!(
        store.claim(&k, Span::from_secs(60)).unwrap(),
        Claim::First
    ));
}

#[test]
fn distinct_keys_are_independent() {
    let mut store = Server::default();

    for i in 0..25 {
        let k = key("bulk", format!("order-{i}").as_bytes());
        assert!(matches!(
            store.claim(&k, Span::from_secs(60)).unwrap(),
            Claim::First
        ));
    }
    for i in 0..25 {
        let k = key("bulk", format!("order-{i}").as_bytes());
        assert!(matches!(
            store.claim(&k, Span::from_secs(60)).unwrap(),
            Claim::InFlight
        ));
    }
}

#[test]
fn window_expiry_re_admits_keys() {
    let mut store = Server::default();
    let k = key("expiry", b"two-second-window");

    store.claim(&k, Span::from_secs(2)).unwrap();
    assert!(matches!(
        store.claim(&k, Span::from_secs(2)).unwrap(),
        Claim::InFlight
    ));

    // Past the window the claim's TTL lapses and the key may be claimed
    // again.
    store.now += 3;
    assert!(matches!(
        store.claim(&k, Span::from_secs(2)).unwrap(),
        Claim::First
    ));
}

#[test]
fn minimum_one_second_ttl_is_enforced() {
    let mut store = Server::default();
    // A zero TTL must not produce an instant-expire claim (EX 0).
    let k = key("floor", b"zero-ttl");
    store.claim(&k, Span::from_secs(0)).unwrap();
    assert!(matches!(
        store.claim(&k, Span::from_secs(60)).unwrap(),
        Claim::InFlight
    ));
}

#[test]
fn response_and_claim_lapse_together() {
    let mut store = Server::default();
    let k = key("expiry", b"together");

    store.claim(&k, Span::from_secs(10)).unwrap();
    store.now += 4;
    store.complete(&k, b"done".to_vec()).unwrap();
    store.now += 5;
    assert_eq!(
        store.claim(&k, Span::from_secs(10)),
        Ok(Claim::Replay(b"done".to_vec()))
    );
    store.now += 1;
    assert_eq!(store.claim(&k, Span::from_secs(10)), Ok(Claim::First));
    assert_eq!(store.claim(&k, Span::from_secs(10)), Ok(Claim::InFlight));
}

#[test]
fn realistic_pipeline_execute_then_replay_end_to_end() {
    let mut store = Server::default();
    let k = key("pipeline", br#"{"order_id":"A1","amount":4200}"#);

    // Delivery 1: fresh claim → execute → record response.
    let claimed = store.claim(&k, Span::from_secs(60));
    assert!(matches!(
        IdempotencyExecutor::after_claim(claimed),
        AfterClaim::Run
    ));
    let response = b"{\"status\":\"charged\"}".to_vec();
    let recorded = store.complete(&k, response.clone());
    let first = IdempotencyExecutor::after_complete(response, recorded).unwrap();
    assert_eq!(first, b"{\"status\":\"charged\"}");

    // Delivery 2 (at-least-once redelivery): replays without executing.
    let claimed = store.claim(&k, Span::from_secs(60));
    let replay: Result<Vec<u8>, IdempotencyError> = match IdempotencyExecutor::after_claim(claimed)
    {
        AfterClaim::Return(reply) => reply,
        AfterClaim::Run => Ok(b"sentinel: closure ran".to_vec()),
    };
    assert_eq!(replay.unwrap(), first);
}
