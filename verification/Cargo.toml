[package]
name = "quick_capture"
version = "0.1.0"
edition = "2021"
publish = false

[dependencies]
mime_guess = "=2.0.5"
url = "=2.5.8"
serde_json = "=1.0.154"
serde = { version = "=1.0.229", features = ["derive"] }
rusqlite = { version = "=0.41.1", features = ["bundled"] }
ulid = "=1.2.1"
arboard = "=3.7.0"
image = { version = "=0.25.10", default-features = false, features = ["png"] }
dirs = "6"
