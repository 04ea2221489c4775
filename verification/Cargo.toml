[package]
name = "aqueira"
version = "0.1.0"
edition = "2021"
publish = false

[dependencies]
tokio = { version = "1", features = ["full"] }
reqwest = { version = "0.12", default-features = false }
hyper = "1"
log = "0.4"
env_logger = "0.11"
thiserror = "1"
