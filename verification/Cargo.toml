[package]
name = "clickup_time_in_status_analyzer"
version = "0.1.0"
edition = "2021"
publish = false

[dependencies]
url = "2"
chrono = { version = "0.4", default-features = false, features = ["std"] }
serde = { version = "1", features = ["derive"] }
serde_json = "1"
reqwest = { version = "0.12", default-features = false, features = ["json", "rustls-tls"] }
axum = "0.8"
tokio = { version = "1", features = ["full"] }
tower-sessions = "0.14"
askama = "0.12"
futures = "0.3"
async-recursion = "1"
