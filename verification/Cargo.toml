[package]
name = "remotec"
version = "0.1.0"
edition = "2021"
publish = false

[dependencies]
whoami = "1"
shell-words = "*"
serde = { version = "1", features = ["derive"] }
serde_json = "1"
clap = { version = "4", features = ["derive"] }
log = "0.4"
env_logger = "0.11"
open = "5"
dirs = "5"
shell_completion = "*"
cfg-if = "1"
