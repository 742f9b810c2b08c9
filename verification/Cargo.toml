[package]
name = "bevy_opengl"
version = "0.1.0"
edition = "2021"
publish = false

[dependencies]
wgpu-types = "=26.0.0"
glow = "=0.16.0"
bytemuck = "=1.25.2"
itertools = "=0.14.0"
anyhow = "=1.0.104"
fancy-regex = "=0.14.0"
raw-window-handle = "=0.6.2"
glutin = "=0.32.3"
bevy = { version = "=0.17.3", default-features = false, features = ["bevy_pbr"] }
notify = "=8.2.1"
syn = { version = "=2.0.119", features = ["full"] }
quote = "=1.0.47"
proc-macro2 = "=1.0.107"
