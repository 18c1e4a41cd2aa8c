[package]
name = "fourinarow"
version = "0.1.0"
edition = "2021"
publish = false

[dependencies]
rand = "0.7"
base64 = "0.13"
sha3 = "0.9"
