[package]
name = "vivace"
version = "0.1.0"
edition = "2021"
publish = false

[dependencies]
chrono = "=0.4.45"
dirs = "=5.0.1"
log = "=0.4.34"
serde = { version = "=1.0.229", features = ["derive"] }
serde_json = "=1.0.154"
tauri = { version = "2", default-features = false }
tauri-plugin-fs = "2"
tauri-plugin-os = "2"
whoami = "=1.6.1"
