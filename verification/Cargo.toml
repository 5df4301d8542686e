[package]
name = "grin"
version = "0.1.0"
edition = "2021"
publish = false

[dependencies]
bevy = { version = "0.12", default-features = false }
bevy_rapier3d = { version = "0.23", default-features = false, features = ["dim3"] }
itertools = "0.12"
rand = "0.8"
