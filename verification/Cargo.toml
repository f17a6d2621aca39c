[package]
name = "lightborne"
version = "0.1.0"
edition = "2021"
publish = false

[dependencies]
rand = "=0.9.5"
serde = { version = "=1.0.229", features = ["derive"] }
toml = "=0.8.23"
itertools = "=0.14.0"
