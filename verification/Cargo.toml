[package]
name = "capture_core"
version = "0.1.0"
edition = "2021"
publish = false

[dependencies]
anyhow = "1"
cpal = "0.15"
whisper-rs = "*"

[dev-dependencies]
hound = "3.5"
