[package]
name = "minimum_viable_blockchain"
version = "0.1.0"
edition = "2021"
publish = false

[dependencies]
rust-crypto = "0.2.36"
bitcoin = "0.29"
rand = "0.7"
chrono = "0.4"
serde = { version = "1", features = ["derive"] }
serde_json = "1"
rmp-serde = "1"
