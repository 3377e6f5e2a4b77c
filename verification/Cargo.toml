[package]
name = "label_payload"
version = "0.1.0"
edition = "2021"
publish = false

[dependencies]
base64 = "0.22"
chrono = { version = "0.4", default-features = false, features = ["std"] }
tauri = { version = "2", default-features = false }
tauri-plugin-fs = { version = "2", default-features = false }
