[package]
name = "starlight_editor"
version = "0.1.0"
edition = "2021"
publish = false

[dependencies]
anyhow = "1"
env_logger = "0.11"
image = { version = "0.25", default-features = false, features = ["png"] }
log = "0.4"
serde = { version = "1", features = ["derive"] }
