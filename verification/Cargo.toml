[package]
name = "ricochet_cli"
version = "0.1.0"
edition = "2021"
publish = false

[dependencies]
anyhow = "*"
axum = "*"
chrono = "*"
clap = { version = "*", features = ["derive", "env"] }
colored = "*"
comfy-table = "*"
dialoguer = "*"
dirs = "*"
flate2 = "*"
globset = "*"
html-escape = "*"
indicatif = "*"
regex = "*"
reqwest = { version = "*", default-features = false, features = ["json", "multipart", "stream"] }
self-replace = "*"
serde = { version = "*", features = ["derive"] }
serde_json = "*"
serde_yaml = "*"
tar = "*"
tempfile = "*"
tokio = { version = "*", features = ["full"] }
tokio-util = { version = "*", features = ["io"] }
toml = "*"
ulid = "*"
unicode-icons = "*"
urlencoding = "*"
walkdir = "*"
webbrowser = "*"
