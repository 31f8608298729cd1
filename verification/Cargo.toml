[package]
name = "ibuilder"
version = "0.7.0"
edition = "2021"
publish = false

[dependencies]
failure = "0.1"

[dev-dependencies]
rand = "0.8"
