[package]
name = "voxel_terrain"
version = "0.1.0"
edition = "2021"
publish = false

[dependencies]
anyhow = "=1.0.104"
bevy = { version = "=0.6.1", default-features = false, features = ["render", "bevy_winit", "png", "x11"] }
building-blocks = { version = "=0.7.1", default-features = false, features = ["mesh"] }
futures-lite = "=1.13.0"
noise = "=0.7.0"
ron = "=0.7.1"
serde = { version = "=1.0.229", features = ["derive"] }
