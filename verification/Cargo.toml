[package]
name = "vidcore"
version = "0.1.0"
edition = "2021"
publish = false

[dependencies]
ffmpeg-next = "*"
cpal = "*"
whisper-rs = "*"
