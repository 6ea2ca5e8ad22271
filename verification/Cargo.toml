[package]
name = "netra"
version = "0.1.0"
edition = "2021"
publish = false

[dependencies]
uuid = { version = "1", features = ["v4"] }
serde = { version = "1", features = ["derive"] }
serde_json = "1"
once_cell = "1"
flutter_rust_bridge = { version = "2", default-features = false }
