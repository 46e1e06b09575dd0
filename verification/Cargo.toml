[package]
name = "stirling_engine"
version = "0.1.0"
edition = "2021"
publish = false

[dependencies]
env_logger = "0.10"
winit = "0.28"
