[package]
name = "llama_launcher"
version = "0.1.0"
edition = "2021"
publish = false

[dependencies]
chrono = "0.4"
dirs = "6"
eframe = { version = "0.34", default-features = false, features = ["default_fonts", "glow", "x11"] }
egui = "0.34"
gguf-rs = "0.1"
log = "0.4"
rfd = { version = "0.15", default-features = false, features = ["xdg-portal", "tokio"] }
serde = { version = "1", features = ["derive"] }
serde_json = "1"
shortcuts-rs = "1"
sys-locale = "0.3"
