[package]
name = "uninstall_many_programs"
version = "0.1.0"
edition = "2021"
publish = false

[dependencies]
serde = { version = "1", features = ["derive"] }
serde_json = "1"
winreg = "*"
tauri = { version = "2", default-features = false }
