[package]
name = "cartouche"
version = "0.3.0"
edition = "2021"
publish = false

[dependencies]
display-types = "0.4"
serde = { version = "1", features = ["derive"] }
serde_json = "1"
