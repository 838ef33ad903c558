[package]
name = "shiori_folio"
version = "0.1.0"
edition = "2021"
publish = false

[dependencies]
serde = { version = "1", features = ["derive"] }
serde_json = "1"
serde_yaml = "0.9"
ureq = { version = "2", features = ["json"] }
chrono = "0.4"
sysinfo = "0.33"
fs4 = "*"
rusqlite = { version = "*", features = ["bundled"] }
hound = "3"
anyhow = "1"
