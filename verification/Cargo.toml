[package]
name = "everypaste"
version = "0.1.0"
edition = "2021"
publish = false

[dependencies]
arboard = "*"
base64 = "*"
blake3 = "*"
chrono = "*"
clipboard-win = "*"
env_logger = "*"
image = { version = "*", default-features = false, features = ["png", "jpeg", "bmp", "webp", "ico", "gif"] }
log = "*"
parking_lot = "*"
rusqlite = { version = "*", features = ["bundled"] }
uuid = { version = "*", features = ["v4"] }
