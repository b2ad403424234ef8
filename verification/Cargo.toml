[package]
name = "server_core"
version = "0.1.0"
edition = "2021"
publish = false

[dependencies]
anyhow = "=1.0.104"
bytes = "=1.12.1"
flexbuffers = "=2.0.0"
protobuf = "=2.28.0"
raft = { version = "=0.7.0", default-features = false, features = ["protobuf-codec"] }
rocksdb = { version = "=0.25.0", default-features = false, features = ["multi-threaded-cf"] }
serde = { version = "=1.0.229", features = ["derive"] }
thiserror = "=2.0.21"
tokio = { version = "=1.54.1", features = ["macros", "rt", "sync"] }
tokio-stream = "=0.1.19"
tracing = "=0.1.44"
