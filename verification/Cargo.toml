[package]
name = "flow_raft"
version = "0.1.0"
edition = "2021"
publish = false

[dependencies]
rkyv = "0.8"
rancor = "0.1"
openraft = { version = "0.9", features = ["serde"] }
tokio = { version = "1", features = ["full"] }
futures = "0.3"
serde = { version = "1", features = ["derive"] }
serde_json = "1"
chrono = { version = "0.4", features = ["serde"] }
thiserror = "2"
tracing = "0.1"
tracing-subscriber = { version = "0.3", features = ["env-filter"] }
clap = { version = "4", features = ["derive"] }
uuid = { version = "1", features = ["v4"] }
