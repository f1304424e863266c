[package]
name = "gateway_dispatcher"
version = "0.1.0"
edition = "2021"
publish = false

[dependencies]
rand = "*"
exponential-backoff = "*"
tokio = { version = "*", features = ["rt-multi-thread", "sync", "time", "macros"] }
tokio-stream = "*"
futures = "*"
futures-util = "*"
triggered = "*"
serde = "*"
