[package]
name = "compute_path_tracer"
version = "0.1.0"
edition = "2021"
publish = false

[dependencies]
rand = "0.8"
serde = { version = "1", features = ["derive"] }
serde_json = "1"
bytemuck = { version = "1", features = ["derive"] }
cgmath = "0.18"
egui = { version = "0.27", default-features = false, features = ["default_fonts"] }
image = { version = "0.24", default-features = false, features = ["png"] }
flume = { version = "0.11", default-features = false, features = ["async"] }
pollster = "0.3"
env_logger = { version = "0.10", default-features = false }
log = "0.4"
