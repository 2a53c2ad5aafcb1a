[package]
name = "hell_game"
version = "0.1.0"
edition = "2021"
publish = false

[dependencies]
bevy = { version = "0.13", default-features = false }
kd-tree = "0.6"
rand = "0.8"
typenum = "1"
