[package]
name = "aptnomo"
version = "0.1.0"
edition = "2021"
publish = false

[dependencies]
sled = "=0.34.7"
bincode = { version = "=2.0.1", features = ["serde"] }
zstd = "=0.13.4"
serde = { version = "=1.0.229", features = ["derive"] }
anyhow = "=1.0.104"
libc = "=0.2.191"
eframe = { version = "0.31", default-features = false, features = ["default_fonts", "glow", "x11"] }

[dev-dependencies]
serde_json = "=1.0.154"
