[package]
name = "discowl"
version = "0.1.0"
edition = "2021"
publish = false

[dependencies]
url = "2"
image = { version = "0.25", default-features = false }
euclid = "0.22"
smol = "2"
gleam = "0.15"
glow = "0.16"
winit = "0.30"
