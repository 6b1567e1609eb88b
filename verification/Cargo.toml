[package]
name = "consensus_messages"
version = "0.1.0"
edition = "2021"
publish = false

[dependencies]
bincode = "1"
bit-vec = "*"
byteorder = "1"
chrono = { version = "0.4", default-features = false, features = ["std"] }
exonum_sodiumoxide = "*"
hex = "0.4"
rust_decimal = "1"
serde = { version = "1", features = ["derive"] }
uuid = "1"
