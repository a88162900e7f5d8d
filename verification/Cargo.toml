[package]
name = "gpu_dispatch"
version = "0.1.0"
edition = "2021"
publish = false

[dependencies]
bytemuck = { version = "=1.25.2", features = ["derive", "min_const_generics"] }
env_logger = "=0.10.2"
futures-intrusive = "=0.5.0"
pollster = "=0.3.0"
wgpu = "=0.16.3"
