[package]
name = "waveform"
version = "0.1.0"
edition = "2021"
publish = false

[dependencies]
hound = "*"
rustfft = "*"
image = { version = "0.24", default-features = false, features = ["jpeg"] }
