[package]
name = "venv"
version = "0.1.0"
edition = "2021"
publish = false

[dependencies]
anyhow = "1"
fs-err = "3"
pelite = "0.10"
regex = "1"
zip = { version = "*", default-features = false, features = ["deflate"] }
