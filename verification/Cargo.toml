[package]
name = "mdbook_applehelp"
version = "0.1.0"
edition = "2021"
publish = false

[dependencies]
anyhow = "*"
clap = { version = "*", features = ["derive"] }
env_logger = "*"
log = "*"
mdbook-renderer = "*"
plist = "*"
pulldown-cmark = "*"
serde = { version = "*", features = ["derive"] }
