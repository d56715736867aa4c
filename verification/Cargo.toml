[package]
name = "cargo_tap"
version = "0.1.0"
edition = "2021"
publish = false

[dependencies]
ab_glyph = "0.2"
anyhow = "1"
dirs = "*"
log = "0.4"
serde = { version = "1", features = ["derive"] }
serde_json = "1"
simple_logger = "*"
toml = "*"
vulkano = "*"
vulkano-shaders = "*"
winit = "*"
