[package]
name = "transmute_txt"
version = "0.1.0"
edition = "2021"
publish = false

[dependencies]
encoding_rs = "0.8"
eframe = { version = "*", default-features = false, features = ["default_fonts", "glow", "x11", "wayland"] }
rfd = "*"
