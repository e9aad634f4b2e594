[package]
name = "sample_tournament"
version = "0.1.0"
edition = "2021"
publish = false

[dependencies]
cocoa = "0.26"
serde = { version = "1", features = ["derive"] }
serde_json = "1"
tauri = { version = "2", default-features = false }
walkdir = "2"
