[package]
name = "rspin"
version = "0.1.0"
edition = "2021"
publish = false

[dependencies]
anyhow = "=1.0.104"
atty = "=0.2.14"
bytemuck = { version = "=1.25.2", features = ["derive"] }
clap = { version = "=4.6.7", features = ["derive"] }
cosmic-text = "=0.12.1"
env_logger = "=0.10.2"
image = "=0.24.9"
log = "=0.4.34"
pollster = "=0.3.0"
smithay-client-toolkit = { version = "=0.18.1", default-features = false }
wayland-backend = { version = "=0.3.17", features = ["client_system", "dlopen"] }
wayland-client = "=0.31.15"
wgpu = "=0.19.4"
