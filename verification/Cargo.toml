[package]
name = "gh_wrapper"
version = "0.1.0"
edition = "2021"
publish = false

[dependencies]
chrono = "0.4"
chrono-humanize = "0.2"
serde = { version = "1", features = ["derive"] }
serde_json = "1"
