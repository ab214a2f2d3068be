[package]
name = "screentime"
version = "0.1.0"
edition = "2021"
publish = false

[dependencies]
base64 = "=0.22.1"
tokio = { version = "=1.53.2", features = ["rt-multi-thread", "macros", "net", "time", "fs", "io-util", "sync", "signal"] }
serde = { version = "=1.0.229", features = ["derive"] }
serde_json = "=1.0.151"
clap = { version = "=4.6.7", features = ["derive", "env"] }
chrono = { version = "=0.4.45", features = ["serde"] }
reqwest = { version = "=0.12.28", default-features = false, features = ["json"] }
