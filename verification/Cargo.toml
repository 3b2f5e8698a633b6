[package]
name = "metadata_hasher"
version = "0.1.0"
edition = "2021"
publish = false

[dependencies]
sp-core-hashing = "*"
frame-metadata = { version = "*", features = ["current"] }
scale-info = "*"
