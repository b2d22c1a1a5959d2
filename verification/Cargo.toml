[package]
name = "muco"
version = "0.2.0"
edition = "2021"
publish = false

[dependencies]
clap = "*"
env_logger = "*"
log = "*"
rayon = "*"
serde = { version = "*", features = ["derive"] }
toml = "*"
walkdir = "*"
xdg = "*"
