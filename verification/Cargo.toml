[package]
name = "octos_app"
version = "0.1.0"
edition = "2021"
publish = false

[dependencies]
url = "=2.5.8"
serde = { version = "=1.0.229", features = ["derive"] }
serde_json = "=1.0.154"
log = "=0.4.35"
chrono = { version = "=0.4.45", default-features = false, features = ["clock", "std"] }
robius-open = "=0.3.1"

[dev-dependencies]
serde_json = "=1.0.154"
