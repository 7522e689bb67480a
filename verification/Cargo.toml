[package]
name = "pumpkin_blocks"
version = "0.1.0"
edition = "2021"
publish = false

[dependencies]
heck = "0.5"
rand = "0.9"
serde = { version = "1", features = ["derive"] }
serde_json = "1"
