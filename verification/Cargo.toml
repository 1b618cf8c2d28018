[package]
name = "experiments"
version = "0.1.0"
edition = "2021"
publish = false

[dependencies]
bumpalo = { version = "3", features = ["boxed", "collections"] }
rand = "0.8"
