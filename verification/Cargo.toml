[package]
name = "orphan_sweep"
version = "0.1.0"
edition = "2021"
publish = false

[dependencies]
chrono = "*"
tokio = { version = "*", features = ["sync", "time", "rt", "macros"] }
kamadak-exif = "*"
serde = { version = "*", features = ["derive"] }
specta = "*"
tracing = "*"
