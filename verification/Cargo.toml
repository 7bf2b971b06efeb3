[package]
name = "or_schnorr"
version = "0.1.0"
edition = "2021"
publish = false

[dependencies]
curve25519-dalek = { version = "4", features = ["rand_core"] }
lox-zkp = "*"
rand_core = { version = "0.6", features = ["getrandom"] }
