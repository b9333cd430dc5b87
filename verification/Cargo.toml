[package]
name = "carcinization_clicker"
version = "0.1.0"
edition = "2021"
publish = false

[dependencies]
chrono = { version = "=0.4.45", features = ["serde"] }
dirs = "=4.0.0"
dyon = { version = "=0.51.3", default-features = false, features = ["dynload"] }
eframe = { version = "0.21", default-features = false, features = ["default_fonts", "glow"] }
egui-notify = "=0.6.0"
humantime = "=2.4.0"
include_dir = "=0.7.4"
json5 = "=0.4.1"
num = { version = "=0.4.3", features = ["serde"] }
serde = { version = "=1.0.229", features = ["derive"] }
