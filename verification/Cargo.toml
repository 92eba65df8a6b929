[package]
name = "roguelike_core"
version = "0.1.0"
edition = "2021"
publish = false

[dependencies]
bracket-lib = "=0.8.7"
serde = { version = "=1.0.229", features = ["derive"] }
