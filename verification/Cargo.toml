[package]
name = "metronome"
version = "0.1.0"
edition = "2021"
publish = false

[dependencies]
rand = "=0.9.5"
clap = { version = "=4.6.7", features = ["derive"] }
cpal = "=0.15.3"
fundsp = "=0.20.0"

[dev-dependencies]
regex = "=1.13.1"
