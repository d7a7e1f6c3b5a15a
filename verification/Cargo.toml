[package]
name = "repo_root"
version = "0.1.0"
edition = "2021"
publish = false

[dependencies]
clap = { version = "4", features = ["derive"] }
color-eyre = "0.6"
env_logger = "0.11"
log = "0.4"
thiserror = "1"
