[package]
name = "budgetchat"
version = "0.1.0"
edition = "2021"
publish = false

[dependencies]
num-integer = "*"
tokio = { version = "*", features = ["full"] }
tokio-util = { version = "*", features = ["codec"] }
tokio-stream = "*"
bytes = "*"
