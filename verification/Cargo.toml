[package]
name = "llm-tool"
version = "0.1.0"
edition = "2021"
publish = false

[dependencies]
serde = { version = "1", features = ["derive"] }
serde_json = "1"
tokio = { version = "1", features = ["rt", "rt-multi-thread", "io-util", "io-std", "net", "macros", "sync"] }
futures-util = "0.3"
schemars = "0.8"
tracing = "0.1"
