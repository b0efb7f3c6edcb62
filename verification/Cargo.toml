[package]
name = "kalvita"
version = "0.1.0"
edition = "2021"
publish = false

[dependencies]
eframe = { version = "=0.37.0", default-features = false, features = ["default_fonts", "glow", "x11"] }
egui = { version = "=0.37.0", default-features = false }
rfd = { version = "=0.17.2", default-features = false, features = ["xdg-portal"] }
rusqlite = { version = "=0.41.1", features = ["bundled"] }
serde_json = "=1.0.154"
ureq = "=3.5.1"
