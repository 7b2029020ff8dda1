[package]
name = "crosspoint-api"
version = "0.1.0"
edition = "2021"
publish = false

[dependencies]
url = "=2.5.8"
serde = { version = "=1.0.229", features = ["derive"] }
serde_json = "=1.0.154"
thiserror = "=2.0.21"
reqwest = { version = "=0.13.5", default-features = false, features = ["json", "multipart", "query", "form"] }
