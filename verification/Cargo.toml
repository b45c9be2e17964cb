[package]
name = "chat"
version = "0.1.0"
edition = "2021"
publish = false

[dependencies]
tungstenite = "=0.21.0"
url = "=2.5.8"
