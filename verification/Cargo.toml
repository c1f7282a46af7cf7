[package]
name = "asciicut"
version = "0.1.0"
edition = "2021"
publish = false

[dependencies]
avt = "=0.18.0"
serde = { version = "=1.0.229", features = ["derive"] }
serde_json = "=1.0.154"
axum = "=0.8.9"
tokio = { version = "=1.54.1", features = ["rt-multi-thread", "net"] }
rust-embed = "=8.13.0"
mime_guess = "=2.0.5"
