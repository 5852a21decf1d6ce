[package]
name = "macdisp"
version = "0.1.0"
edition = "2021"
publish = false

[dependencies]
clap = { version = "4", features = ["derive"] }
core-graphics = "0.23"
serde = { version = "1", features = ["derive"] }
serde_json = "1"
