[package]
name = "calendar_frontend"
version = "0.1.0"
edition = "2021"
publish = false

[dependencies]
itertools = "*"
chrono = { version = "0.4", default-features = false, features = ["clock", "std"] }
serde = { version = "1", features = ["derive"] }
serde_json = "1"
reqwest = { version = "*", default-features = false, features = ["json"] }
tokio = { version = "1", features = ["rt-multi-thread"] }
bytes = "1"
