[package]
name = "termhost"
version = "0.1.0"
edition = "2021"
publish = false

[dependencies]
dirs = "5"
serde_json = "1"
tokio = { version = "1", features = ["io-util", "net", "rt", "rt-multi-thread", "sync", "time"] }
tracing = "0.1"
