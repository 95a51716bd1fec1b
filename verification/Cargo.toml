[package]
name = "voice_assistant"
version = "0.1.0"
edition = "2021"
publish = false

[dependencies]
cpal = "0.15"
crossbeam-channel = "0.5"
lazy_static = "1"
once_cell = "1"
rodio = "0.17"
tokio = { version = "1", features = ["rt-multi-thread", "macros", "sync", "time"] }
vosk = "0.3"
