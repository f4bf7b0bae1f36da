[package]
name = "lan_transfer"
version = "0.1.0"
edition = "2021"
publish = false

[dependencies]
uuid = { version = "1", features = ["v4"] }
tokio = { version = "1", default-features = false, features = ["sync"] }
serde = { version = "1", features = ["derive"] }
hostname = "0.4"
dirs = "6"
tauri = { version = "2", default-features = false }
