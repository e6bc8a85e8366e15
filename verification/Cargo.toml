[package]
name = "pitch_transcriber"
version = "0.1.0"
edition = "2021"
publish = false

[dependencies]
hound = "3"
rustfft = "6"
fluidlite = "*"
