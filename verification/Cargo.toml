[package]
name = "ethersync"
version = "0.1.0"
edition = "2021"
publish = false

[dependencies]
anyhow = "1"
async-trait = "0.1"
automerge = "0.5"
futures = "0.3"
ignore = "0.4"
rand = "0.8"
shutdown-async = "*"
tokio = { version = "1", features = ["full"] }
tokio-util = { version = "0.7", features = ["codec"] }
tracing = "0.1"
walkdir = "2"
