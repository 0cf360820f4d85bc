[package]
name = "maxwell_fdtd"
version = "0.1.0"
edition = "2021"
publish = false

[dependencies]
bytemuck = { version = "1", features = ["derive"] }
wgpu = { version = "0.19", default-features = false, features = ["wgsl"] }
egui = "0.27"
egui-wgpu = { version = "0.27", default-features = false }
pollster = "0.3"
env_logger = { version = "0.11", default-features = false }
log = "0.4"
