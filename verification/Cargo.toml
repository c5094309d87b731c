[package]
name = "ultralist"
version = "0.1.0"
edition = "2021"
publish = false

[dependencies]
chrono = { version = "0.4", default-features = false, features = ["now"] }
dirs = "*"
regex = "1"
rusqlite = { version = "*", features = ["bundled"] }
serde = { version = "1", features = ["derive"] }
tauri = { version = "2", default-features = false }
uuid = { version = "1", default-features = false, features = ["std", "v4"] }
