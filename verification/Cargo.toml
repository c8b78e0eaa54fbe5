[package]
name = "project_calamity"
version = "0.1.0"
edition = "2021"
publish = false

[dependencies]
bevy = { version = "0.10", default-features = false }
noise = { version = "0.8", default-features = false }
rand = "0.8"
serde = { version = "1", features = ["derive"] }
toml = "0.7"
