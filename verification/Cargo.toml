[package]
name = "starframe"
version = "0.1.0"
edition = "2021"
publish = false

[dependencies]
spacetimedb = "=2.3.0"
log = "=0.4.35"
glam = "=0.34.2"
bytemuck = { version = "=1.25.2", features = ["derive"] }
eframe = { version = "=0.37.0", default-features = false, features = ["wgpu", "default_fonts", "x11"] }
egui-wgpu = "=0.37.0"
wgpu = "=30.0.1"
