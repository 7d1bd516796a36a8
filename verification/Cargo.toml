[package]
name = "smithay_egui"
version = "0.1.0"
edition = "2021"
publish = false

[dependencies]
egui = "=0.36.2"
egui_glow = "=0.36.2"
glow = "=0.17.0"
smithay = { version = "=0.7.0", default-features = false, features = ["desktop", "renderer_glow"] }
xkbcommon = "=0.9.0"
