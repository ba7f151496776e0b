[package]
name = "egui_skia"
version = "0.1.0"
edition = "2021"
publish = false

[dependencies]
egui = { version = "0.21", default-features = false }
skia-safe = "0.60"
