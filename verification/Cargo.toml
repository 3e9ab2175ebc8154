[package]
name = "sphericalharmonics"
version = "0.1.0"
edition = "2021"
publish = false

[dependencies]
is-odd = "*"
