[package]
name = "ssbu_online_deluxe"
version = "0.1.0"
edition = "2021"
publish = false

[dependencies]
arc-swap = "1"
serde = { version = "1", features = ["derive"] }
toml = "*"
zerocopy = { version = "0.8", features = ["derive"] }
linkle = "*"
skyline = "*"
