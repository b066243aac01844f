[package]
name = "torrent_bootstrap"
version = "0.1.0"
edition = "2021"
publish = false

[dependencies]
anyhow = "*"
async-std = { version = "*", features = ["unstable"] }
futures = "*"
rand = "*"
url = "*"
urlencoding = "*"

[dev-dependencies]
hex = "*"
