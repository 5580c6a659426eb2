[package]
name = "ferrite"
version = "1.0.0"
edition = "2021"
publish = false

[dependencies]
serde_json = "1"
tiny_http = "0.12"
tao = "*"
wry = "*"
