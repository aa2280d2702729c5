[package]
name = "smabrog"
version = "0.1.0"
edition = "2021"
publish = false

[dependencies]
regex = "1"
chrono = "0.4"
difflib = "0.4"
linked-hash-map = "0.5"
rand = "0.8"
serde = { version = "1", features = ["derive"] }
serde_json = "1"
