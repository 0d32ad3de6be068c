[package]
name = "rustyroad"
version = "0.1.0"
edition = "2021"
publish = false

[dependencies]
encoding = "0.2"
uuid = { version = "1", features = ["v4"] }
tokio = { version = "1", features = ["full"] }
tokio-stream = "0.1"
hyper = { version = "0.14", features = ["full"] }
prometheus = "0.13"
lazy_static = "1"
log = "0.4"
env_logger = "0.9"
