[package]
name = "signal_fish_client"
version = "0.1.0"
edition = "2021"
publish = false

[dependencies]
tokio = { version = "1", features = ["sync", "rt", "rt-multi-thread", "time", "macros", "net"] }
async-trait = "0.1"
futures-util = "0.3"
tokio-tungstenite = "*"

[dev-dependencies]
serde_json = "1"
