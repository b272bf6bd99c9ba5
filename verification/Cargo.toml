[package]
name = "ears"
version = "0.1.0"
edition = "2021"
publish = false

[dependencies]
anyhow = "=1.0.104"
cpal = "=0.18.2"
enigo = "=0.6.1"
futures-util = "=0.3.34"
reqwest = { version = "=0.12.28", features = ["json", "multipart"] }
rubato = "=5.0.1"
serde = { version = "=1.0.229", features = ["derive"] }
serde_json = "=1.0.154"
tokio = { version = "=1.54.1", features = ["rt-multi-thread", "macros", "sync", "time", "fs", "io-util"] }
whisper-rs = "*"
