[package]
name = "websocket_std"
version = "0.1.0"
edition = "2021"
publish = false

[dependencies]
base64 = "*"
getrandom = "*"
rand = "*"
sha1_smol = "*"
