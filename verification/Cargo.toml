[package]
name = "taxicab-map"
version = "0.1.0"
edition = "2021"
publish = false

[dependencies]
itertools = "0.11"
ndarray = { version = "0.15", features = ["serde"] }
serde = { version = "1", features = ["derive"] }
