[package]
name = "auto_volume"
version = "0.1.0"
edition = "2021"
publish = false

[dependencies]
anyhow = "1"
libpulse-binding = "2"
libpulse-simple-binding = "2"
