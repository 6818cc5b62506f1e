[package]
name = "hsarec"
version = "0.1.0"
edition = "2021"
publish = false

[dependencies]
anyhow = "*"
crossbeam-channel = "*"
flume = "*"
log = "*"
notify = "*"
serde = { version = "*", features = ["derive"] }
simplelog = "*"
sysinfo = "*"
textcode = "*"
toml = "*"
webbrowser = "*"
