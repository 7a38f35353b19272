[package]
name = "atto"
version = "0.1.0"
edition = "2021"
publish = false

[dependencies]
anyhow = "1"
arboard = { version = "3", default-features = false }
clap = { version = "4", features = ["derive", "cargo"] }
dirs = "*"
indoc = "2"
nix = { version = "*", features = ["signal", "poll", "process", "fs"] }
ratatui = "*"
serde_json = "1"
syntect = { version = "5", default-features = false, features = ["default-fancy"] }
textwrap = "*"
tracing = "0.1"
tracing-subscriber = { version = "0.3", features = ["env-filter"] }
unicode-linebreak = "*"
unicode-segmentation = "1"
unicode-width = "*"
