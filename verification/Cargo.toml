[package]
name = "sud"
version = "0.1.0"
edition = "2021"
publish = false

[dependencies]
itoa = "1"
ryu = "1"
bytes = "1"
tokio-util = { version = "0.7", features = ["codec"] }

[dev-dependencies]
hex = "0.4"
