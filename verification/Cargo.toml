[package]
name = "hell_engine"
version = "0.1.0"
edition = "2021"
publish = false

[dependencies]
ash = "0.37"
num = "0.4"
image = { version = "0.24", default-features = false, features = ["png"] }
serde = { version = "1", features = ["derive"] }
serde_yaml = "0.9"
glam = "0.24"
