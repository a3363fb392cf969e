[package]
name = "kouik"
version = "0.1.0"
edition = "2021"
publish = false

[dependencies]
bytemuck = { version = "1", features = ["derive"] }
fontdue = "0.9"
pollster = "0.4"
wgpu = "24"
winit = "0.30"
