[package]
name = "thunder"
version = "1.0.0"
edition = "2021"
publish = false

[dependencies]
anyhow = "1"
axum = "0.7"
clap = { version = "4", features = ["derive", "env"] }
daemonize = "0.5"
http = "1"
nix = { version = "0.28", features = ["process", "signal", "user"] }
serde_json = "1"
sysinfo = "0.30"
ureq = "2"
urlencoding = "2"
