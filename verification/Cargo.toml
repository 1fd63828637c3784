[package]
name = "openlogi_agent"
version = "0.1.0"
edition = "2021"
publish = false

[dependencies]
atomic-write-file = "=0.3.1"
interprocess = { version = "2", features = ["tokio"] }
opener = "=0.9.0"
serde = { version = "1", features = ["derive"] }
serde_json = "1"
succession = { version = "=0.2.0", features = ["eviction", "supervision"] }
tokio = { version = "1", features = ["rt-multi-thread", "macros", "io-util", "time", "sync", "signal", "net"] }
tracing = "0.1"
tracing-subscriber = { version = "0.3", features = ["env-filter"] }
