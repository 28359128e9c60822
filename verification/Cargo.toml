[package]
name = "audio_logger"
version = "0.1.0"
edition = "2021"
publish = false

[dependencies]
chrono = { version = "0.4", default-features = false, features = ["std", "now"] }
cpal = "0.15"
hound = "3.5"
paho-mqtt = { version = "0.12", default-features = false, features = ["bundled"] }
