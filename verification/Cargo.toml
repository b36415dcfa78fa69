[package]
name = "guardian"
version = "0.1.0"
edition = "2021"
publish = false

[dependencies]
anyhow = "=1.0.104"
chrono = "=0.4.45"
clap = { version = "=4.6.7", features = ["derive"] }
colored = "=2.2.0"
comfy-table = "=7.2.2"
libc = "=0.2.191"
regex = "=1.13.1"
serde = { version = "1", features = ["derive"] }
sysinfo = "=0.30.13"
tokio = { version = "=1.54.1", features = ["full"] }
toml = "0.8"
tracing = "=0.1.44"
tracing-subscriber = "0.3"
