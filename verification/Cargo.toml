[package]
name = "rusteroids"
version = "0.1.0"
edition = "2021"
publish = false

[dependencies]
rand = "=0.8.5"
rand_chacha = "=0.3.1"
bevy = { version = "=0.12.1", default-features = false }
bincode = "=1.3.3"
serde = { version = "1", features = ["derive"] }
weighted_rand = "=0.4.2"
