[package]
name = "qpx"
version = "0.1.0"
edition = "2021"
publish = false

[dependencies]
bevy = { version = "=0.17.3", default-features = false, features = ["std", "bevy_asset", "bevy_camera", "bevy_color", "bevy_log", "bevy_state", "bevy_text", "bevy_ui", "bevy_window", "default_font"] }
bevy_rapier2d = { version = "=0.32.0", default-features = false, features = ["dim2"] }
serde = { version = "=1.0.229", features = ["derive"] }
toml = "=0.9.12"
