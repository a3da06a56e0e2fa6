[package]
name = "xastge"
version = "0.1.0"
edition = "2021"
publish = false

[dependencies]
anyhow = "=1.0.104"
slotmap = "=1.1.1"
serde = { version = "=1.0.229", features = ["derive"] }
serde_json = "=1.0.154"
ron = "=0.8.1"
clap = { version = "=4.6.7", features = ["derive"] }
parking_lot = "=0.12.5"
bytemuck = { version = "1", features = ["derive"] }
wgpu = "25"
image = { version = "0.25", default-features = false, features = ["png"] }
