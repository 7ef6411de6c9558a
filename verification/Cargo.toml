[package]
name = "chan_discord"
version = "0.1.0"
edition = "2021"
publish = false

[dependencies]
crypto_secretbox = "0.1"
rand = "0.8"
opus = "0.3"
tokio = { version = "1", features = ["rt", "net", "sync", "time", "macros"] }
futures-util = "0.3"
serde = { version = "1", features = ["derive"] }
serde_json = "1"
serenity-voice-model = "0.2"
tokio-tungstenite = "0.20"
tokio-util = "0.7"
twilight-cache-inmemory = "0.15"
twilight-gateway = "0.15"
twilight-http = "0.15"
twilight-model = "0.15"
log = "0.4"
anyhow = "1"

[dev-dependencies]
hex = "0.4"
