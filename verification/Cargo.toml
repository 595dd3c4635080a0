[package]
name = "nbody_sim"
version = "0.1.0"
edition = "2021"
publish = false

[dependencies]
anyhow = "*"
bytemuck = { version = "*", features = ["derive"] }
env_logger = "*"
glam = { version = "*", features = ["bytemuck"] }
pollster = "*"
wgpu = "*"
winit = "*"
