[package]
name = "cryptocurrency_advanced"
version = "0.1.0"
edition = "2021"
publish = false

[dependencies]
exonum = "=1.0.0"
exonum-crypto = "=1.0.0"
exonum-merkledb = "=1.0.0"
failure = "0.1"
serde = { version = "1", features = ["derive"] }
serde_derive = "1"
