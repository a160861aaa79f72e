[package]
name = "repo-intel-core"
version = "0.1.0"
edition = "2021"
publish = false

[dependencies]
serde = { version = "1", features = ["derive"] }
serde_json = "1"
toml = "0.8"
walkdir = "2"
thiserror = "1"
anyhow = "1"
clap = { version = "4", features = ["derive"] }
