[package]
name = "rust_mp"
version = "0.1.0"
edition = "2021"
publish = false

[dependencies]
colored = "2"
eframe = { version = "0.31", default-features = false, features = ["glow", "default_fonts", "x11"] }
macroquad = "0.4"
macroquad-platformer = "0.2"
macroquad-tiled = "0.2"
once_cell = "1"
serde = { version = "1", features = ["derive"] }
serde_json = "1"

[dev-dependencies]
bincode = "1.3"
