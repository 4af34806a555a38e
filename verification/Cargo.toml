[package]
name = "sardine"
version = "0.1.0"
edition = "2021"
publish = false

[dependencies]
aes = "0.7"
base64 = "0.13"
block-modes = "0.8"
chacha = "0.3"
hmac = "0.12"
num-bigint = "0.4"
rand = "0.8"
sha2 = "0.10"
