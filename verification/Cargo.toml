[package]
name = "hif"
version = "0.1.0"
edition = "2021"
publish = false

[dependencies]
flate2 = "1"
image = "0.24"
eframe = { version = "0.22", default-features = false, features = ["default_fonts", "glow"] }
egui_extras = { version = "0.22", features = ["image"] }
skia-safe = "*"
