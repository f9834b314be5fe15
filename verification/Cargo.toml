[package]
name = "embedded-qr"
version = "0.1.0"
edition = "2021"
publish = false

[dependencies]
embedded-graphics-core = "0.4"
