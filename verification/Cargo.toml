[package]
name = "frame_timing"
version = "0.1.0"
edition = "2021"
publish = false

[dependencies]
gifski = { version = "1", default-features = false, features = ["png"] }
