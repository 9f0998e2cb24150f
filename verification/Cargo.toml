[package]
name = "boids"
version = "0.1.0"
edition = "2021"
publish = false

[dependencies]
bytemuck = { version = "*", features = ["derive"] }
cgmath = "*"
env_logger = "*"
futures = "*"
wgpu = "*"
winit = "*"
