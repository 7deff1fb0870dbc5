[package]
name = "data_loader"
version = "0.1.0"
edition = "2021"
publish = false

[dependencies]
tokio = { version = "*", features = ["rt", "rt-multi-thread", "sync", "time", "fs", "io-util", "macros"] }
parking_lot = "*"

[dev-dependencies]
serde_json = "*"
