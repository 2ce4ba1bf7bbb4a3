[package]
name = "agent_core"
version = "0.1.0"
edition = "2021"
publish = false

[dependencies]
serde_json = "1"
serde = { version = "1", features = ["derive"] }
tokio = { version = "1", default-features = false, features = ["rt-multi-thread", "time", "macros", "sync"] }
reqwest = { version = "0.12", default-features = false, features = ["json", "stream"] }
futures = "0.3"
async-trait = "0.1"
async-stream = "0.3"
anyhow = "1"
chrono = { version = "0.4", default-features = false, features = ["clock"] }
