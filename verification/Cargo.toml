[package]
name = "mini_chain"
version = "0.1.0"
edition = "2021"
publish = false

[dependencies]
sha3 = "0.10"
rand = "0.8"
tokio = { version = "1", features = ["rt-multi-thread", "time", "sync", "macros"] }
async-channel = "2"
futures = "0.3"
