[package]
name = "btclib"
version = "0.1.0"
edition = "2021"
publish = false

[dependencies]
ecdsa = "0.16"
k256 = "0.13"
rand = "0.8"
sha256 = { version = "1", default-features = false }
hex = "0.4"
serde = { version = "1", features = ["derive"] }
chrono = "0.4"
uuid = { version = "1", features = ["v4"] }
ciborium = "0.2"
