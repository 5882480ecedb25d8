[package]
name = "gristmill"
version = "0.1.0"
edition = "2021"
publish = false

[dependencies]
glam = { version = "=0.34.2", features = ["serde"] }
slotmap = "=1.1.1"
serde = { version = "=1.0.229", features = ["derive"] }
serde_yaml = "=0.9.34"
toml = "=1.1.8"
log = "=0.4.35"
winit = { version = "=0.27.5", features = ["serde"] }
image = { version = "=0.24.9", default-features = false, features = ["png"] }
