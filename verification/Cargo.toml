[package]
name = "game_metrics"
version = "0.1.0"
edition = "2021"
publish = false

[dependencies]
clap = { version = "*", features = ["derive"] }
rcon-client = "*"
tiny_http = "*"
thiserror = "*"
