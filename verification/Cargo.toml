[package]
name = "crystal_server"
version = "0.1.0"
edition = "2021"
publish = false

[dependencies]
k256 = { version = "0.13", features = ["ecdsa"] }
sha3 = "0.10"
sha2 = "0.10"
rand = "0.8"
hex = "0.4"
anyhow = "1"
rusqlite = { version = "0.31", features = ["bundled"] }
tokio = { version = "1", features = ["full"] }
tracing = "0.1"
tracing-subscriber = "0.3"
