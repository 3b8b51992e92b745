[package]
name = "worldsync"
version = "0.1.0"
edition = "2021"
publish = false

[dependencies]
futures-util = "0.3"
raylib = "*"
serde = { version = "1", features = ["derive"] }
serde_json = "1"
tokio = { version = "1", features = ["macros", "rt-multi-thread", "sync"] }
tokio-tungstenite = "*"
