[package]
name = "renderer"
version = "0.1.0"
edition = "2021"
publish = false

[dependencies]
image = { version = "=0.25.10", default-features = false, features = ["png"] }
ndarray = "=0.17.2"
serde = "=1.0.229"
serde_derive = "=1.0.229"
stopwatch = "=0.0.7"
toml = "=1.1.6"
