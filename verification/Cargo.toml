[package]
name = "battery_tracker"
version = "0.1.0"
edition = "2021"
publish = false

[dependencies]
chrono = "0.4"
battery = "0.7"
eframe = { version = "0.36", default-features = false, features = ["glow", "x11", "default_fonts"] }
egui_plot = "0.37"
