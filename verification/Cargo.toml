[package]
name = "herdr"
version = "0.8.0"
edition = "2021"
publish = false

[dependencies]
getrandom = "0.3"
schemars = "1"
serde = { version = "1", features = ["derive"] }
serde_json = "1"
