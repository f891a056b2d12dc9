[package]
name = "mountain_render"
version = "0.1.0"
edition = "2021"
publish = false

[dependencies]
ggez = "0.5"
noise = "0.7"
