[package]
name = "websurfx"
version = "0.1.0"
edition = "2021"
publish = false

[dependencies]
scraper = "*"
base64 = "=0.13.1"
md4 = "*"
rc4 = "*"
reqwest = { version = "*", default-features = false, features = ["blocking"] }
