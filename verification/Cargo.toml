[package]
name = "vikos"
version = "0.1.0"
edition = "2021"

[dependencies]
num = "0.4"
serde = { version = "1", features = ["derive"] }
serde_derive = "1"
