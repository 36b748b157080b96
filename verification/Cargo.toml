[package]
name = "frame_graph"
version = "0.1.0"
edition = "2021"
publish = false

[dependencies]
wgpu = { version = "=30.0.1", features = ["noop"] }

[dev-dependencies]
pollster = "=1.0.1"
