[package]
name = "resilient"
version = "0.1.0"
edition = "2021"
publish = false

[dependencies]
chrono = { version = "0.4", default-features = false, features = ["clock"] }
toml = "0.5"
dirs = "2.0"
tempdir = "0.3"
