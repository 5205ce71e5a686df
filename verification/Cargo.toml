[package]
name = "picocode"
version = "0.1.0"
edition = "2021"
publish = false

[dependencies]
serde = { version = "1", features = ["derive"] }
serde_json = "1"
toml = "*"
crossterm = "*"
ratatui = "*"
unicode-width = "*"
arboard = "*"
image = { version = "*", default-features = false, features = ["png", "jpeg", "gif", "webp", "bmp"] }
