[package]
name = "factory_data"
version = "0.1.0"
edition = "2021"
publish = false

[dependencies]
csv = "1"
inquire = "*"
serde = { version = "1", features = ["derive"] }
