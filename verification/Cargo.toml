[package]
name = "work_recorder"
version = "0.1.0"
edition = "2021"
publish = false

[dependencies]
active-win-pos-rs = "0.11"
anyhow = "1"
chrono = { version = "0.4", features = ["serde"] }
dirs = "7"
image = { version = "0.25", default-features = false, features = ["png"] }
image-compare = "0.5"
serde = { version = "1", features = ["derive"] }
serde_json = "1"
tokio = { version = "1", features = ["full"] }
tracing = "0.1"
tracing-subscriber = "0.3"
which = "8"
xcap = "0.9"
