[package]
name = "lan-mcp"
version = "0.1.0"
edition = "2021"
publish = false

[dependencies]
gethostname = "0.5"
serde = { version = "1", features = ["derive"] }
serde_json = "1"
socket2 = { version = "0.5", features = ["all"] }
tokio = { version = "1", features = ["io-std", "io-util", "macros", "net", "rt-multi-thread", "sync", "time"] }
