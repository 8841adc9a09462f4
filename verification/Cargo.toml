[package]
name = "indexer1"
version = "0.1.0"
edition = "2021"
publish = false

[dependencies]
alloy = { version = "=1.0.42", default-features = false, features = ["std", "reqwest", "providers", "provider-http", "rpc-types", "sol-types"] }
anyhow = "1"
futures = "0.3"
log = "0.4"
serde_json = "1"
sha2 = "0.10"
tokio = { version = "1", features = ["rt-multi-thread", "macros", "time"] }
tokio-stream = { version = "0.1", features = ["time"] }
