[package]
name = "p2p_sync"
version = "0.1.0"
edition = "2021"
publish = false

[dependencies]
anyhow = "1"
futures = "0.3"
tokio = { version = "1", features = ["macros", "rt-multi-thread", "sync"] }
tokio-stream = "0.1"
tracing = "0.1"

[dev-dependencies]
unsigned-varint = "*"
