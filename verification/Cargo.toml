[package]
name = "tinywallet"
version = "0.1.0"
edition = "2021"
publish = false

[dependencies]
bitcoin = { version = "0.32", features = ["secp-recovery"] }
sha2 = "0.10"
bs58 = { version = "0.5", features = ["check"] }
serde = { version = "1", features = ["derive"] }
serde_json = "1"
thiserror = "1"
