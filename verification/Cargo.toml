[package]
name = "backup_monitor"
version = "0.1.0"
edition = "2021"
publish = false

[dependencies]
anyhow = "=1.0.104"
arc-swap = "=1.9.2"
auto-launch = "=0.6.0"
chrono = { version = "=0.4.45", features = ["serde"] }
dirs = "=7.0.0"
env_logger = "=0.11.11"
humantime = "=2.4.0"
humantime-serde = "=1.1.1"
ksni = { version = "=0.3.6", features = ["blocking"] }
log = "=0.4.34"
mio = { version = "=1.2.4", features = ["os-ext", "os-poll"] }
notify = "=8.2.0"
notify-rust = "=4.18.1"
serde = { version = "=1.0.229", features = ["derive"] }
serde_yaml_ng = "=0.10.0"
tempfile = "=3.27.0"
