[package]
name = "nurtex"
version = "0.1.0"
edition = "2021"
publish = false

[dependencies]
aes = "0.8"
cfb8 = "0.8"
rand = "0.8"
rsa_public_encrypt_pkcs1 = "*"
flate2 = "1"
bytes = "1"
byteorder = "1"
uuid = "1"
tokio = { version = "1", features = ["full"] }
tokio-util = { version = "0.7", features = ["codec"] }
futures = "0.3"
