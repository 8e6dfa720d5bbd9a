[package]
name = "agent_core"
version = "0.1.0"
edition = "2021"
publish = false

[dependencies]
chrono = "0.4"
globset = "0.4"
log = "0.4"
serde = { version = "1", features = ["derive"] }
serde_json = "1"
tokio = { version = "1", features = ["rt", "rt-multi-thread", "sync", "time", "macros"] }
