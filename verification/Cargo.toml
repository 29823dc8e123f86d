[package]
name = "dns_manager"
version = "0.1.0"
edition = "2021"
publish = false

[dependencies]
dirs = "=5.0.1"
eframe = { version = "0.37", default-features = false, features = ["default_fonts", "glow", "x11"] }
egui = "0.37"
serde = { version = "=1.0.229", features = ["derive"] }
serde_json = "=1.0.154"
