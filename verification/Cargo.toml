[package]
name = "wheat"
version = "0.1.0"
edition = "2021"
publish = false

[dependencies]
rand = "0.8"
clap = { version = "4", features = ["derive"] }
derive_builder = "*"
measurements = "*"
sdl2 = "*"
thiserror = "1"
