[package]
name = "audio_engine"
version = "0.1.0"
edition = "2021"
publish = false

[dependencies]
cpal = "0.15"
hound = "3.5"
rtrb = "0.3"
uuid = { version = "1", features = ["v4"] }
