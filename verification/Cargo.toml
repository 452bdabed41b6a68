[package]
name = "drift_sdk"
version = "0.1.0"
edition = "2021"
publish = false

[dependencies]
hex = "0.4"
lazy_static = "1"
serde = { version = "1", features = ["derive"] }
serde_json = { version = "1", features = ["arbitrary_precision"] }
solana-sdk = "1.18"
substreams-solana-macro = "*"

[dev-dependencies]
regex = "1"
