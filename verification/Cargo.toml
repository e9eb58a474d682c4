[package]
name = "lyr"
version = "0.1.0"
edition = "2021"
publish = false

[dependencies]
clap = { version = "*", features = ["derive"] }
dirs = "*"
env_logger = "*"
lofty = "*"
log = "*"
reqwest = { version = "*", default-features = false, features = ["blocking", "rustls-tls"] }
serde = { version = "*", features = ["derive"] }
toml = "*"
