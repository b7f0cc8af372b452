[package]
name = "playlist_fixer"
version = "0.1.0"
edition = "2021"
publish = false

[dependencies]
crossbeam = "0.8"
serde = { version = "1", features = ["derive"] }
serde_yaml = "0.9"
shellexpand = "*"
unicode-bom = "*"
