[package]
name = "wgpu_2d_sample"
version = "0.1.0"
edition = "2021"
publish = false

[dependencies]
anyhow = "1"
bytemuck = { version = "1", features = ["derive"] }
cgmath = "0.18"
env_logger = "*"
glam = { version = "*", features = ["bytemuck"] }
image = { version = "*", default-features = false, features = ["png"] }
log = "0.4"
pollster = "*"
serde = { version = "1", features = ["derive"] }
serde_json = "1"
wgpu = "*"
winit = "0.30"
