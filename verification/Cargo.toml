[package]
name = "remote_test"
version = "0.1.0"
edition = "2021"
publish = false

[dependencies]
base64 = "*"
chrono = "*"
regex = "*"
serde = { version = "*", features = ["derive"] }
serde_json = "*"
sha2 = "*"
shell-words = "*"
tokio = { version = "*", features = ["rt", "fs", "process", "macros", "rt-multi-thread"] }
walkdir = "*"
zip = "*"
