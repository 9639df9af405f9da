[package]
name = "engine"
version = "0.1.0"
edition = "2021"
publish = false

[dependencies]
crossbeam = "0.8"
winit = "0.30"
log = "0.4"
env_logger = "0.11"
thiserror = "1"
