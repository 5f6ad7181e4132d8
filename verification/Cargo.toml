[package]
name = "kelp_2d"
version = "0.1.0"
edition = "2021"
publish = false

[dependencies]
wgpu = { version = "0.19", features = ["glsl"] }
raw-window-handle = "0.6"
glam = "*"
bytemuck = "*"
pollster = "*"
