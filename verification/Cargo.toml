[package]
name = "rcollection"
version = "0.1.0"
edition = "2021"
publish = false

[dependencies]
async-std = "1"
bytes = "1"
crossbeam = "0.8"
futures = "0.3"
mini-redis = "0.4"
tokio = { version = "1", features = ["full"] }
