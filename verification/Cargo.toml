[package]
name = "zescrow"
version = "0.1.0"
edition = "2021"
publish = false

[dependencies]
sha2 = "0.10"
ed25519-dalek = { version = "2", features = ["rand_core"] }
k256 = { version = "0.13", features = ["ecdsa", "std"] }
rand_core = { version = "0.6", features = ["getrandom"] }
num-bigint = "0.4"
num-integer = "0.1"
hex = "0.4"
bincode = { version = "2", features = ["derive"] }
serde = { version = "1", features = ["derive"] }
serde_json = "1"
anyhow = "1"
thiserror = "2"
