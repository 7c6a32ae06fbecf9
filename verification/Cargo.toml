[package]
name = "weaver_semconv"
version = "0.1.0"
edition = "2021"
publish = false

[dependencies]
url = "2"
globset = "0.4"
serde = { version = "1", features = ["derive"] }
serde_yaml = "0.9"
serde_json = "1"
