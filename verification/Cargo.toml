[package]
name = "fempeg"
version = "0.1.0"
edition = "2021"
publish = false

[dependencies]
anyhow = "=1.0.104"
clap = { version = "=4.6.7", features = ["derive"] }
colored = "=3.1.1"
crossterm = "=0.29.0"
ctrlc = "=3.5.2"
image = { version = "=0.25.10", default-features = false, features = ["png", "jpeg", "bmp", "gif", "webp", "tiff"] }
include_dir = "*"
libloading = "=0.8.9"
num_cpus = "=1.17.0"
ratatui = "=0.30.2"
rayon = "=1.12.0"
rexif = "=0.7.6"
serde_json = "=1.0.154"
