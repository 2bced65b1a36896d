[package]
name = "stickies"
version = "0.1.0"
edition = "2021"
publish = false

[dependencies]
serde = { version = "1", features = ["derive"] }
serde_json = "1"
uuid = { version = "1", features = ["v4"] }
tauri = { version = "2", default-features = false, features = ["wry", "tray-icon", "image-png"] }
objc2-app-kit = { version = "0.3", features = ["NSWindow", "NSResponder"] }
