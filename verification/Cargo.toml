[package]
name = "clipboard_investigator"
version = "0.1.0"
edition = "2021"
publish = false

[dependencies]
base64 = "0.22"
serde = { version = "1", features = ["derive"] }
serde_json = "1"
objc = "0.2"
tauri = { version = "2", default-features = false, features = ["wry", "tray-icon"] }
