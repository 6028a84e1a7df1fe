[package]
name = "graphing_calculator"
version = "0.1.0"
edition = "2021"
publish = false

[dependencies]
anyhow = "*"
calculator-lib = "*"
eframe = { version = "*", default-features = false, features = ["glow", "persistence", "default_fonts", "x11"] }
egui = "*"
egui_plot = "*"
serde = { version = "*", features = ["derive"] }
