[package]
name = "cork_core"
version = "0.1.0"
edition = "2021"
publish = false

[dependencies]
sha2 = "=0.10.9"
tokio = { version = "=1.54.1", features = ["rt", "sync"] }
tokio-stream = { version = "=0.1.19", features = ["sync"] }
tonic = { version = "=0.14.6", default-features = false }
