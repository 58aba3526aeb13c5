[package]
name = "salon"
version = "0.1.0"
edition = "2021"
publish = false

[dependencies]
kamadak-exif = "*"
lru = "*"
notify = "*"
notify-debouncer-full = "*"
serde = { version = "*", features = ["derive"] }
serde_json = "*"
sha256 = { version = "*", default-features = false }
