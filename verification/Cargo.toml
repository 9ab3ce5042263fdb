[package]
name = "live_sports"
version = "0.1.0"
edition = "2021"
publish = false

[dependencies]
serde_json = "1"
chrono = "0.4"
regex = "1"
ordinal = "0.3"
serde = { version = "1", features = ["derive"] }
reqwest = { version = "0.11", default-features = false }
tokio = { version = "1", features = ["macros", "rt-multi-thread"] }
futures = "0.3"
axum = "0.6"
parking_lot = "0.12"
tracing = "0.1"
tracing-subscriber = "0.3"
