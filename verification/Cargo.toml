[package]
name = "slp_client"
version = "0.1.0"
edition = "2021"
publish = false

[dependencies]
serde_json = "*"
tokio = { version = "*", features = ["net", "io-util", "rt", "time", "macros"] }
