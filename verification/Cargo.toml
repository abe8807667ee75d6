[package]
name = "xd_engine"
version = "0.1.0"
edition = "2021"
publish = false

[dependencies]
bytemuck = { version = "=1.25.2", features = ["derive"] }
egui = "=0.37.0"
egui-wgpu = "=0.37.0"
egui-winit = "=0.37.0"
glam = "=0.30.10"
pollster = "=1.0.1"
serde_json = "=1.0.154"
wgpu = "=30.0.1"
winit = "=0.30.13"
