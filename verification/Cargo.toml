[package]
name = "shamash"
version = "0.1.0"
edition = "2021"
publish = false

[dependencies]
chrono = { version = "=0.4.45", default-features = false, features = ["clock", "std"] }
signal-hook = { version = "=0.3.18", default-features = false }
serde_json = "=1.0.154"
