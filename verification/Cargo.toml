[package]
name = "sagi"
version = "0.1.0"
edition = "2021"
publish = false

[dependencies]
freedesktop-icons = "*"
anyhow = "*"
log = "*"
env_logger = "*"
clap = { version = "*", features = ["derive"] }
tokio = { version = "*", features = ["rt", "macros", "net", "sync", "io-util", "time"] }
hyprland = "*"
