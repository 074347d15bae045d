[package]
name = "bp_derive"
version = "0.1.0"
edition = "2021"
publish = false

[dependencies]
secp256k1 = "*"
bitcoin_hashes = "*"
