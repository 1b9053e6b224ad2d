[package]
name = "ring_rhythm"
version = "0.1.0"
edition = "2021"
publish = false

[dependencies]
kira = "0.10"
macroquad = "0.4"
rand = "0.9"
serde = { version = "1", features = ["derive"] }
serde_json = "1"
serde_with = "3"
