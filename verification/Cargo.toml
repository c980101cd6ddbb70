[package]
name = "sovereign_orchestrator"
version = "0.1.0"
edition = "2021"
publish = false

[dependencies]
dashmap = "5"
lru = "0.12"
regex = "1"
sha2 = "0.10"
chrono = "0.4"
axum = "0.7"
tokio = { version = "1", features = ["full"] }
tokio-stream = "0.1"
tonic = "0.12"
prost = "0.13"
serde = { version = "1", features = ["derive"] }
serde_json = "1"
reqwest = { version = "0.12", default-features = false, features = ["json"] }
tracing = "0.1"
tracing-subscriber = "0.3"
uuid = { version = "1", features = ["v4"] }
parking_lot = "0.12"
memory-stats = "1"
thiserror = "1"
