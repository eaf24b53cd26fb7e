[package]
name = "pubsub_batch"
version = "0.1.0"
edition = "2021"
publish = false

[dependencies]
actix = "*"
tokio = { version = "*", features = ["sync", "time", "signal", "rt", "macros", "rt-multi-thread"] }
