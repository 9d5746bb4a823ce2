[package]
name = "gpu_ui"
version = "0.1.0"
edition = "2021"
publish = false

[dependencies]
wgpu = "*"
bytemuck = { version = "*", features = ["derive"] }
