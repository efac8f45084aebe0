[package]
name = "cargo_flash"
version = "0.1.0"
edition = "2021"
publish = false

[dependencies]
colored = "*"
env_logger = "*"
indicatif = "*"
lazy_static = "*"
log = "*"
serde = { version = "*", features = ["derive"] }
serde_json = "*"
toml = "*"
