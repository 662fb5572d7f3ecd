[package]
name = "network_audio_input_adapter"
version = "0.1.0"
edition = "2021"
publish = false

[dependencies]
futures = "0.3"
hound = "*"
cpal = "*"
