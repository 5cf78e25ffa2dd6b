[package]
name = "nut_exporter"
version = "1.1.1"
edition = "2021"
publish = false

[dependencies]
tokio = { version = "1", features = ["full"] }
hyper = { version = "0.14", features = ["full"] }
url = "2"
log = "0.4"
env_logger = "0.10"
