[package]
name = "astroid"
version = "0.1.0"
edition = "2021"
publish = false

[dependencies]
soroban-sdk = { version = "=29.0.1", features = ["hazmat-address"] }

[dev-dependencies]
ed25519-dalek = "=2.2.0"
soroban-sdk = { version = "=29.0.1", features = ["testutils"] }
