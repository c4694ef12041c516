[package]
name = "qtm2"
version = "0.3.0"
edition = "2021"
publish = false

[dependencies]
anyhow = "=1.0.104"
bytesize = "=1.3.3"
directories = "=5.0.1"
eframe = { version = "0.22", default-features = false, features = ["default_fonts", "glow"] }
fs_extra = "=1.3.0"
image = { version = "0.24", default-features = false, features = ["png", "jpeg", "gif"] }
lava_torrent = "=0.11.1"
open = "=4.2.0"
rand = "=0.8.8"
serde = { version = "=1.0.229", features = ["derive"] }
serde_json = "=1.0.154"
serde_repr = "=0.1.21"
toml = "=0.7.8"
tracing = "=0.1.44"
tracing-appender = "=0.2.5"
tracing-subscriber = "=0.3.23"
walkdir = "=2.5.0"
