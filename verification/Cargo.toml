[package]
name = "sans-effort"
version = "0.1.0"
edition = "2021"
publish = false

[dependencies]
thiserror = "2"
tokio = { version = "1", features = ["io-util", "io-std", "rt", "time", "sync"] }
tokio-util = { version = "0.7", features = ["rt"] }
tracing = "0.1"
