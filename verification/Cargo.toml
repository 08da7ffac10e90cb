[package]
name = "fluent"
version = "0.1.0"
edition = "2021"
publish = false

[dependencies]
chrono = { version = "0.4", default-features = false, features = ["clock", "std"] }
rmp-serde = "1"
serde = "1"
serde_json = "1"
