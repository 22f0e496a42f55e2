[package]
name = "game_of_life"
version = "0.1.0"
edition = "2021"
publish = false

[dependencies]
bincode = "1"
colour = "*"
lazy_static = "1"
regex = "1"
serde = { version = "1", features = ["derive"] }
