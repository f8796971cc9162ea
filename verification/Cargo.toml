[package]
name = "honey_files"
version = "0.1.0"
edition = "2021"
publish = false

[dependencies]
inotify = "*"
serde = { version = "*", features = ["derive"] }
serde_json = "*"
