[package]
name = "rvu"
version = "0.1.0"
edition = "2021"
publish = false

[dependencies]
clap = { version = "3", features = ["derive"] }
image = "0.24"
pixels = "0.9"
thiserror = "1"
winit = "0.26"
