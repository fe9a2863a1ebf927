[package]
name = "herdr"
version = "0.1.0"
edition = "2021"
publish = false

[dependencies]
crossterm = "*"
regex = "1"
serde = { version = "1", features = ["derive"] }
serde_json = "1"
