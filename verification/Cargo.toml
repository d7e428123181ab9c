[package]
name = "idempotency_kit"
version = "0.1.0"
edition = "2021"
publish = false

[dependencies]
async-trait = "=0.1.92"
blake3 = { version = "=1.8.7", default-features = false }
dashmap = "=6.2.1"
hex = "=0.4.3"
redis = { version = "=1.8.1", default-features = false, features = ["connection-manager", "tokio-comp"] }
thiserror = "=2.0.21"

[dev-dependencies]
tokio = { version = "1", features = ["net", "rt", "time"] }
