# idempotency_kit

Idempotency keys with TTL-bounded claims and response replay, verified with
Verus.

- `src/key.rs`: scopes and key derivation, `"{scope}:{blake3-hex}"`.
- `src/store.rs`: claims and the `IdempotencyStore` trait.
- `src/slots.rs`, `src/memory.rs`: the in-process store on `dashmap`, bounded
  and fail-closed. `src/model.rs` is its mathematical state, `src/laws.rs` what
  holds across operations.
- `src/executor.rs`: claim, run, complete or release.
- `src/redis_store.rs`: the commands sent to a Redis server and what its
  replies mean.
- `app/`: the asynchronous stores and executor around the library.

Operations that depend on the time come twice: `claim`, `complete` and
`sweep_expired` read the clock, `claim_at`, `complete_at` and
`sweep_expired_at` take the reading. The contracts of the latter give the
outcome for each reading; those of the former say that the outcome is that of
the last reading, which the store keeps. Readings count from the store's
origin, which no operation changes, and none is earlier than the one before.
