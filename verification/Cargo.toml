[package]
name = "slime_sim"
version = "0.1.0"
edition = "2021"
publish = false

[dependencies]
rand = "0.8"
bytemuck = "1"
wgpu = "*"
winit = "*"
pollster = "*"
