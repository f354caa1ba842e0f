[package]
name = "shard_core"
version = "0.1.0"
edition = "2021"
publish = false

[dependencies]
anyhow = "1"
axum = { version = "*", features = ["ws"] }
dashmap = "*"
futures-util = "0.3"
reqwest = { version = "*", default-features = false, features = ["json"] }
serde = { version = "1", features = ["derive"] }
serde_json = "1"
tokio = { version = "1", features = ["fs", "macros", "net", "rt", "signal", "sync"] }
tokio-stream = "0.1"
tokio-util = { version = "0.7", features = ["rt"] }
tokio-websockets = { version = "*", features = ["client", "fastrand", "sha1_smol"] }
tracing = "0.1"
tracing-subscriber = "0.3"
twilight-cache-inmemory = "*"
twilight-gateway = "*"
twilight-http = "*"
twilight-model = "*"
twilight-util = { version = "*", features = ["builder"] }
