[package]
name = "mdbook_rfc"
version = "0.1.0"
edition = "2021"
publish = false

[dependencies]
semver = "=1.0.28"
serde = { version = "1", features = ["derive"] }
serde_json = { version = "1", features = ["preserve_order"] }
clap = { version = "4", features = ["derive"] }
env_logger = "*"
log = "*"
error-stack = "*"
walkdir = "2"
mdbook = { version = "0.4", default-features = false }
