[package]
name = "tauth"
version = "0.1.0"
edition = "2021"
publish = false

[dependencies]
aes-gcm = "0.10"
libreauth = "*"
memsec = "*"
serde_json = "1"
uuid = { version = "1", features = ["v4"] }
zeroize = "1"
