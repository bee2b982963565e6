[package]
name = "m3u8_dl"
version = "0.1.0"
edition = "2021"
publish = false

[dependencies]
rust-crypto = "*"
aes-stream = "*"
tokio = { version = "*", features = ["full"] }
reqwest = { version = "*", default-features = false }
futures = "*"
m3u8-rs = "*"
url = "*"
argh = "*"
anyhow = "*"
colored = "*"
log = "*"
pbr = "*"
ffcli = "*"
