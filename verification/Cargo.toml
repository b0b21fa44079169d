[package]
name = "freezer_rs"
version = "0.1.0"
edition = "2021"
publish = false

[dependencies]
regex = "=1.13.1"
anyhow = "=1.0.104"
log = "=0.4.35"
flexi_logger = "=0.31.10"
chrono = "=0.4.45"
inotify = "=0.11.5"
procfs = "=0.18.0"
serde = { version = "=1.0.229", features = ["derive"] }
toml = "=1.1.8"
socket2 = "=0.6.5"
clap = { version = "=4.6.7", features = ["derive"] }
fs_extra = "=1.3.0"
zip = { version = "=8.6.0", default-features = false }
zip-extensions = "=0.14.1"
