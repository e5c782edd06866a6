[package]
name = "trusttrove"
version = "0.1.0"
edition = "2021"
publish = false

[dependencies]
soroban-sdk = "21"

[dev-dependencies]
proptest = "1"
