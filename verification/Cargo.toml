[package]
name = "file_history"
version = "0.1.0"
edition = "2021"
publish = false

[dependencies]
anyhow = "=1.0.104"
clap = { version = "2", default-features = false }
hostname = "=0.3.1"
mime = "=0.3.17"
os_info = { version = "=3.15.0", default-features = false }
