[package]
name = "scamble"
version = "0.1.0"
edition = "2021"
publish = false

[dependencies]
circular-buffer = "=1.2.1"
rand = "=0.10.3"
realfft = "=3.5.0"
hound = "=3.5.1"
