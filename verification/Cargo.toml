[package]
name = "netutils"
version = "0.1.0"
edition = "2021"
publish = false

[dependencies]
base64 = "*"
futures-util = "0.3"
http = "*"
tokio = { version = "1", features = ["time"] }
