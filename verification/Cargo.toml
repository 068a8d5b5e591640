[package]
name = "thumbs"
version = "0.1.0"
edition = "2021"
publish = false

[dependencies]
md5 = "=0.8.1"
url = "=2.5.8"
globset = "=0.4.20"
walkdir = "=2.5.0"
dirs = "=7.0.0"
png_pong = "=0.12.0"
miniz_oxide = "=0.9.1"
anyhow = "*"
log = "*"
env_logger = "*"
atty = "0.2"
humantime = "*"
clap = { version = "=3.2.25", features = ["derive"] }
