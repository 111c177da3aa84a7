[package]
name = "pow_chain"
version = "0.1.0"
edition = "2021"
publish = false

[dependencies]
blake3 = "1"
rand = "0.8"
tokio = { version = "1", features = ["sync", "time", "rt-multi-thread", "macros"] }
