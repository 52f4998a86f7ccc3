[package]
name = "ato"
version = "2.0.0"
edition = "2021"
publish = false

[dependencies]
heapless = "0.8"
