[package]
name = "hello_pubsub"
version = "0.1.0"
edition = "2021"
publish = false

[dependencies]
anyhow = "1"
tokio = { version = "1", features = ["rt", "net", "time", "io-util", "macros", "sync"] }
