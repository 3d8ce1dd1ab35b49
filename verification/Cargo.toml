[package]
name = "move_scanner"
version = "0.1.0"
edition = "2021"
publish = false

[dependencies]
ansi_term = "=0.12.1"
anyhow = "=1.0.104"
clap = { version = "4.5", features = ["derive"] }
num = "=0.4.3"
regex = "1.11"
serde = { version = "1", features = ["derive"] }
serde_json = "1"
walkdir = "=2.5.0"
