[package]
name = "echo_server"
version = "0.1.0"
edition = "2021"
publish = false

[dependencies]
futures = "0.1"
hyper = "0.12"
serde = "1"
serde_json = { version = "1", features = ["preserve_order"] }
