[package]
name = "ballpit"
version = "0.1.0"
edition = "2021"
publish = false

[dependencies]
rapier3d = "=0.36.1"
rand = "=0.9.5"
glam = "=0.33.12"
bytemuck = { version = "=1.25.2", features = ["derive"] }
winit = "=0.30.13"
wgpu = "=30.0.1"
anyhow = "=1.0.104"
log = "=0.4.35"
env_logger = "=0.11.11"
pollster = "=1.0.1"
