[package]
name = "aurora_wm"
version = "0.1.0"
edition = "2021"
publish = false

[dependencies]
image = { version = "0.25", default-features = false, features = ["png"] }
rusttype = "0.9"
