[package]
name = "kalah"
version = "0.1.0"
edition = "2021"
publish = false

[dependencies]
lazy_static = "1"
rand = "0.8"
regex = "1"
url = "2"
