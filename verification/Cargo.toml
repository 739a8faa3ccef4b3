[package]
name = "eigen_core"
version = "0.1.0"
edition = "2021"
publish = false

[dependencies]
meval = "=0.2.0"
serde = { version = "=1.0.229", features = ["derive"] }
serde_json = "=1.0.151"
rusqlite = { version = "=0.40.2", features = ["bundled"] }
reqwest = { version = "0.12", default-features = false, features = ["json", "stream"] }
reqwest-eventsource = "=0.6.0"
futures = "=0.3.34"
tokio = { version = "=1.53.2", features = ["rt-multi-thread", "macros", "fs", "io-util", "process", "time", "sync"] }
uuid = { version = "=1.27.0", features = ["v4"] }
dirs = "=7.0.0"
notify = "=8.2.0"
