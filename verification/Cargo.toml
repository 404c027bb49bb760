[package]
name = "smart_tx_stack"
version = "0.1.0"
edition = "2021"
publish = false

[dependencies]
chrono = { version = "0.4", features = ["serde"] }
dashmap = "6"
rand = "0.8"
serde = { version = "1", features = ["derive"] }
serde_json = "1"
tokio = { version = "1", features = ["full"] }
reqwest = { version = "0.12", features = ["json"] }
bs58 = "0.5"
bincode = "1"
anyhow = "1"
tracing = "0.1"
tracing-subscriber = "0.3"
colored = "2"
dotenv = "0.15"
