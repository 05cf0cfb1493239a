[package]
name = "accel_preprocess"
version = "0.1.0"
edition = "2021"
publish = false

[dependencies]
anyhow = "1"
clap = { version = "4", features = ["derive"] }
serde = { version = "1", features = ["derive"] }
tempfile = "3"
toml = "0.8"
tracing = "0.1"
tracing-subscriber = "0.3"
