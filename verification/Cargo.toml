[package]
name = "factoring"
version = "0.1.0"
edition = "2021"
publish = false

[dependencies]
multiversx-sc = "*"
