[package]
name = "nhl_input"
version = "0.1.0"
edition = "2021"
publish = false

[dependencies]
anyhow = "1"
chrono = "0.4"
clap = { version = "4", features = ["derive"] }
ctrlc = "3"
evdev = "0.13"
image = { version = "0.25", default-features = false, features = ["png"] }
rhai = "1"
serde = { version = "1", features = ["derive"] }
serde_json = "1"
tesseract = "0.15"
thiserror = "2"
tracing = "0.1"
tracing-subscriber = { version = "0.3", features = ["env-filter"] }
xcap = "*"
