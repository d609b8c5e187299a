[package]
name = "gravinyon"
version = "0.1.0"
edition = "2021"
publish = false

[dependencies]
rand = "=0.8.5"
bytemuck = { version = "1", features = ["derive"] }
cgmath = "=0.18.0"
env_logger = "0.10"
futures = "0.3"
wgpu = "=0.15.1"
winit = "=0.28.7"
