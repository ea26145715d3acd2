[package]
name = "kestrel_engine"
version = "0.1.0"
edition = "2021"
publish = false

[dependencies]
anyhow = "1"
bevy_ecs = "0.15"
bytemuck = { version = "1", features = ["derive"] }
glam = { version = "0.29", features = ["bytemuck"] }
gltf = { version = "1", default-features = false, features = ["import", "utils", "names"] }
half = "2"
image = { version = "0.25", default-features = false, features = ["png", "hdr", "exr"] }
pollster = "0.4"
rand = "0.8"
rapier2d = "0.22"
serde = { version = "1", features = ["derive"] }
serde_json = "1"
smallvec = "1"
wgpu = { version = "24", default-features = false, features = ["wgsl"] }
wide = "0.7"
winit = { version = "0.30", default-features = false, features = ["rwh_06", "x11"] }
