[package]
name = "interest_vault"
version = "0.1.0"
edition = "2021"
publish = false

[dependencies]
pinocchio = "=0.9.3"
solana-keccak-hasher = { version = "=3.1.0", features = ["sha3"] }
