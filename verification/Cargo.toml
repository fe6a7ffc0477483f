[package]
name = "audio_filter"
version = "0.1.0"
edition = "2021"
publish = false

[dependencies]
image = { version = "0.25", default-features = false }
anyhow = "1"
log = "0.4"
hound = "3.5"
ringbuf = "0.3"
crossbeam-channel = "0.5"
rubato = "0.15"
ndarray = "0.15"
rustfft = "6"
itertools = "0.13"
env_logger = "0.11"
cpal = "0.15"
rodio = { version = "0.19", default-features = false, features = ["mp3"] }
lame = "0.1"
pipewire = "0.8"
