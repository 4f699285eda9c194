[package]
name = "playcore"
version = "0.1.0"
edition = "2021"
publish = false

[dependencies]
dashmap = "*"
rodio = "*"
tokio = { version = "*", features = ["fs", "io-util"] }
vpr-audio-analyzer = "*"
