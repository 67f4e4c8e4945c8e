[package]
name = "save_report"
version = "0.1.0"
edition = "2021"
publish = false

[dependencies]
chrono = "*"
itertools = "*"
serde = { version = "*", features = ["derive"] }
serde_json = "*"
