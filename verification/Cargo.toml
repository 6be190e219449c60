[package]
name = "accord"
version = "0.1.0"
edition = "2021"
publish = false

[dependencies]
argon2 = "0.5"
blake3 = { version = "1", features = ["pure"] }
chacha20poly1305 = "0.10"
chrono = "0.4"
ed25519-dalek = { version = "2", features = ["rand_core"] }
keyring = "3"
openmls = "0.7"
openmls_basic_credential = "0.4"
openmls_rust_crypto = "0.4"
openmls_traits = "0.4"
rand = "0.8"
serde = { version = "1", features = ["derive"] }
serde_json = "1"
thiserror = "2"
uuid = { version = "1", features = ["v7"] }
zeroize = "1"
