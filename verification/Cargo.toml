[package]
name = "panes"
version = "0.1.0"
edition = "2021"
publish = false

[dependencies]
bytemuck = "*"
env_logger = "*"
pollster = "*"
wgpu = "*"
winit = "*"
