[package]
name = "soji"
version = "0.1.0"
edition = "2021"
publish = false

[dependencies]
sha2 = "0.10"
hex = "0.4"
url = "2"
urlencoding = "2"
infer = "*"
serde = { version = "1", features = ["derive"] }
serde_json = "1"
rusqlite = { version = "*", features = ["bundled"] }
chrono = "0.4"
uuid = { version = "1", features = ["v4"] }
walkdir = "2"
notify = "*"
rayon = "1"
image = { version = "0.25", default-features = false, features = ["png", "gif", "webp", "jpeg"] }
fast_image_resize = "*"
reqwest = { version = "0.12", default-features = false, features = ["blocking", "rustls-tls"] }
