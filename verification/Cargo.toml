[package]
name = "apex-equalizer"
version = "0.1.0"
edition = "2021"
publish = false

[dependencies]
anyhow = "1"
async-stream = "0.3"
config = { version = "0.11", default-features = false }
cpal = "0.15"
embedded-graphics = "0.7"
futures = "0.3"
linkme = "0.3"
log = "0.4"
rustfft = "6"
tokio = { version = "1", features = ["time", "rt"] }
