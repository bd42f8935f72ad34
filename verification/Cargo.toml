[package]
name = "pastebin"
version = "0.1.0"
edition = "2021"
publish = false

[dependencies]
chrono = "*"
iron = "*"
router = "*"
params = "*"
persistent = "*"
mount = "*"
staticfile = "*"
logger = "*"
handlebars-iron = "*"
toml = "*"
serde = "*"
serde_derive = "*"
