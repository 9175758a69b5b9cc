[package]
name = "iec104_codec"
version = "0.1.0"
edition = "2021"
publish = false

[dependencies]
anyhow = "1"
bytes = "1"
tokio-util = { version = "0.7", features = ["codec"] }
