[package]
name = "miniterm"
version = "0.1.0"
edition = "2021"
publish = false

[dependencies]
anyhow = "=1.0.104"
bytemuck = { version = "=1.25.2", features = ["derive"] }
image = { version = "0.24", default-features = false, features = ["png"] }
ptyprocess = "=0.5.0"
tokio = { version = "=1.54.1", features = ["macros", "rt-multi-thread"] }
tracing-subscriber = "=0.3.23"
wgpu = "=0.15.1"
winit = "=0.28.7"
