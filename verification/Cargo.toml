[package]
name = "pwsw"
version = "0.1.0"
edition = "2021"
publish = false

[dependencies]
regex = "1"
serde = { version = "1", features = ["derive"] }
serde_json = "1"
toml = "0.8"
clap = { version = "4", features = ["derive"] }
anyhow = "1"
crossterm = "0.28"
notify-rust = "4"
dirs = "5"
tokio = { version = "1", features = ["full"] }
tracing = "0.1"
tracing-subscriber = { version = "0.3", features = ["env-filter"] }
tracing-appender = "0.2"
tempfile = "3"
nix = { version = "0.29", features = ["signal"] }
users = "0.11"
notify = "6"
sd-notify = "0.4"
wayland-client = "0.31"
wayland-protocols-wlr = { version = "0.3", features = ["client"] }
