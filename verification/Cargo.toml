[package]
name = "rustanel"
version = "0.1.0"
edition = "2021"
publish = false

[dependencies]
eframe = { version = "=0.33.3", default-features = false, features = ["wgpu", "x11", "wayland"] }
egui = "=0.33.3"
egui_extras = { version = "=0.33.3", default-features = false, features = ["image"] }
enum-map = "=2.7.3"
lazy-regex = "=3.6.2"
lazy_static = "=1.5.1"
web-time = "=1.1.0"
