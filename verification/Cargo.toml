[package]
name = "apollonius"
version = "0.1.0"
edition = "2021"
publish = false

[dependencies]
eframe = { version = "0.31", default-features = false, features = ["default_fonts", "glow", "x11"] }
egui = { version = "0.31", default-features = false }
egui_extras = { version = "0.31", default-features = false }
once_cell = "1"
