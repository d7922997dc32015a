[package]
name = "tarpc_server"
version = "0.1.0"
edition = "2021"
publish = false

[dependencies]
futures = "0.3"
humantime = "2"
log = "0.4"
pin-project = "1"
tokio = { version = "1", features = ["rt", "sync", "time"] }
