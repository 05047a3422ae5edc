[package]
name = "page_styler"
version = "0.1.0"
edition = "2021"
publish = false

[dependencies]
clap = "2"
env_logger = "*"
log = "*"
mdbook = "0.4"
serde_json = "*"
toml = "0.5"
