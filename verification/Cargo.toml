[package]
name = "zk-ml-private-model-baseline"
version = "0.1.0"
edition = "2021"
publish = false

[dependencies]
ark-crypto-primitives = { version = "0.4", features = ["commitment"] }
rand = "0.8"
rand_chacha = "0.3"
