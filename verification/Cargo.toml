[package]
name = "sigchain"
version = "0.1.0"
edition = "2021"
publish = false

[dependencies]
rand = "0.8"
rsa = { version = "0.9", features = ["sha2"] }
serde_json = "1"
sha2 = { version = "0.10", features = ["oid"] }
sha256 = { version = "1", default-features = false }
