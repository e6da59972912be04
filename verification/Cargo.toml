[package]
name = "chronicle"
version = "0.1.0"
edition = "2021"
publish = false

[dependencies]
chrono = { version = "0.4", features = ["serde"] }
clap = { version = "4", features = ["derive"] }
git2 = "*"
serde = { version = "1", features = ["derive"] }
serde_json = "1"
termimad = "*"
thiserror = "1"
toml = "0.8"
walkdir = "2"
