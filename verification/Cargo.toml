[package]
name = "voxel_engine"
version = "0.1.0"
edition = "2021"
publish = false

[dependencies]
hashbrown = "0.9"
flume = { version = "0.10", default-features = false }
uvth = "4"
simdnoise = "3.1"
nalgebra = "0.29"
bytemuck = { version = "1", features = ["derive"] }
wgpu = "0.12"
winit = "0.26"
image = { version = "0.23", default-features = false, features = ["png", "jpeg"] }
anyhow = "1"
futures = "0.3"
wgpu_glyph = "0.16"
