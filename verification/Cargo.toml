[package]
name = "tpe"
version = "0.1.0"
edition = "2021"
publish = false

[dependencies]
csv = "1"
fraction = "0.15"
serde = { version = "1", features = ["derive"] }
thiserror = "1"
