[package]
name = "exile_companion"
version = "0.1.0"
edition = "2021"
publish = false

[dependencies]
anyhow = "1"
base64 = "0.22"
chrono = { version = "0.4", default-features = false, features = ["clock"] }
eframe = { version = "0.33", default-features = false, features = ["default_fonts", "glow", "x11"] }
flate2 = "1"
quick-xml = "=0.41.0"
regex = "1"
reqwest = { version = "0.12", default-features = false, features = ["blocking", "json"] }
rfd = { version = "0.15", default-features = false, features = ["xdg-portal", "tokio"] }
rusqlite = { version = "*", features = ["bundled"] }
serde = { version = "1", features = ["derive"] }
sysinfo = { version = "*", default-features = false, features = ["system"] }
url = "2"
