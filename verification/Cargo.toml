[package]
name = "pallet_voting"
version = "0.1.0"
edition = "2021"
publish = false

[dev-dependencies]
sp-crypto-hashing = "0.1"
