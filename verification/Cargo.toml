[package]
name = "hyprwhspr-rs"
version = "0.1.0"
edition = "2021"
publish = false

[dependencies]
anyhow = "1"
bytes = "1"
evdev = "0.13"
tokio = { version = "1", features = ["io-util", "macros", "net", "process", "rt", "sync"] }
tracing = "0.1"
