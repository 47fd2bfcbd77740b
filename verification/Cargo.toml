[package]
name = "crokey"
version = "1.1.0"
edition = "2021"
publish = false

[dependencies]
crossterm = "*"
serde = { version = "*", features = ["derive"] }
