[package]
name = "header_codec"
version = "0.1.0"
edition = "2021"
publish = false

[dependencies]
anyhow = "1"
bytes = "1"
capnp = "*"
yoke = { version = "*", features = ["derive"] }
