[package]
name = "light_for_all_agent"
version = "0.1.0"
edition = "2021"
publish = false

[dependencies]
serde = { version = "1", features = ["derive"] }
serde_json = "1"
dirs = "6"
winreg = "0.55"
tauri = { version = "2", default-features = false }
