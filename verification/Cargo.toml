[package]
name = "agi_adventure"
version = "0.1.0"
edition = "2021"
publish = false

[dependencies]
rand = "0.8"
serde = { version = "1", features = ["derive"] }
serde_json = "1"
macroquad = "0.4"
tiled = "0.12"
