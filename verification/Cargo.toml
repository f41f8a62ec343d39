[package]
name = "astronomore"
version = "0.1.0"
edition = "2021"
publish = false

[dependencies]
naga = { version = "29", features = ["wgsl-in"] }
wgpu = "29"
winit = "0.30"
glam = { version = "0.32", features = ["bytemuck"] }
egui = "0.34"
egui-wgpu = "0.34"
egui-winit = "0.34"
vsop87 = "3"
miette = "7"
image = { version = "0.25", default-features = false, features = ["png", "jpeg"] }
bytemuck = { version = "1", features = ["derive"] }
tracing = "0.1"
tracing-subscriber = { version = "0.3", features = ["env-filter"] }
pollster = "*"
web-time = "*"
notify-debouncer-mini = "*"
