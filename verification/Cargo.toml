[package]
name = "arrow_expression"
version = "0.1.0"
edition = "2021"
publish = false

[dependencies]
arrow = { version = "57", default-features = false }
futures = "0.3"
serde_json = "1"
tokio = { version = "1", features = ["rt-multi-thread", "sync", "time"] }
tracing = "0.1"

[dev-dependencies]
parquet = { version = "57", default-features = false, features = ["arrow"] }
