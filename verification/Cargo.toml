[package]
name = "bobsics_gui"
version = "0.1.0"
edition = "2021"
publish = false

[dependencies]
glyph_brush = "0.7"
wgpu = "0.14"
wgpu_glyph = "0.18"
winit = "0.27"
pollster = "0.2"
bytemuck = { version = "1", features = ["derive"] }
