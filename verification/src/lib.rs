//! Idempotency keys: scoped key derivation, TTL-bounded claims with response
//! replay, and pluggable stores.

pub mod error;
pub mod executor;
pub mod key;
pub mod laws;
pub mod memory;
pub mod model;
pub mod redis_model;
pub mod redis_store;
pub mod slots;
pub mod span;
pub mod store;

pub use error::{IdempotencyError, StoreError};
pub use executor::{AfterClaim, AfterRun, IdempotencyExecutor};
pub use key::IdempotencyKey;
pub use memory::{MemoryStore, DEFAULT_CAPACITY};
pub use redis_store::RedisStore;
pub use span::Span;
pub use store::{Claim, IdempotencyStore};
