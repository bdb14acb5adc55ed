[package]
name = "olympus_raw"
version = "0.1.0"
edition = "2021"
publish = false

[dependencies]
anyhow = "1"
image = { version = "*", default-features = false }
rawler = "*"
