[package]
name = "synthy"
version = "0.1.0"
edition = "2021"
publish = false

[dependencies]
crossbeam-channel = "0.5"
eframe = { version = "0.29", default-features = false, features = ["default_fonts", "glow", "x11"] }
egui_plot = "0.29"
fundsp = "0.20"
serialport = { version = "4", default-features = false }
