[package]
name = "mycad"
version = "0.1.0"
edition = "2021"
publish = false

[dependencies]
serde = { version = "1", features = ["derive"] }
egui = "*"
eframe = { version = "*", default-features = false, features = ["glow", "persistence", "default_fonts", "x11", "wayland"] }
rfd = "*"
