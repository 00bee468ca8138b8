[package]
name = "zogzog"
version = "0.1.0"
edition = "2021"
publish = false

[dependencies]
chrono = "=0.4.45"
tokio = { version = "=1.54.1", features = ["rt-multi-thread", "net", "sync", "time", "macros", "io-util"] }
eframe = { version = "=0.37.0", default-features = false, features = ["default_fonts", "glow", "x11"] }
egui_extras = { version = "=0.37.0", features = ["image", "file"] }
image = { version = "=0.25.10", default-features = false, features = ["png"] }
env_logger = "=0.11.11"
