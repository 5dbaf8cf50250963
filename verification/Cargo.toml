[package]
name = "bevy_roguelike"
version = "0.1.0"
edition = "2021"
publish = false

[dependencies]
rand = "0.8"
serde = { version = "1", features = ["derive"] }
strum = "0.24"
strum_macros = "0.24"
bevy = { version = "0.10", default-features = false }
