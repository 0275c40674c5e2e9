[package]
name = "bevy_intl"
version = "0.1.0"
edition = "2021"
publish = false

[dependencies]
regex = "1"
serde = { version = "1", features = ["derive"] }
serde_json = "1"
once_cell = "1"
bevy = { version = "0.16", default-features = false }
