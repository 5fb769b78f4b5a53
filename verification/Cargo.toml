[package]
name = "sprite_engine"
version = "0.1.0"
edition = "2021"
publish = false

[dependencies]
image = "0.23"
wgpu = "0.7"
winit = "0.24"
futures = "0.3"
