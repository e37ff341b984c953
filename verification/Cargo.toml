[package]
name = "crypto_stream"
version = "0.1.0"
edition = "2021"
publish = false

[dependencies]
bytes = "1"
tokio = { version = "1", features = ["io-util"] }
futures = "0.3"
