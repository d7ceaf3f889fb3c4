[package]
name = "dockpot"
version = "0.1.0"
edition = "2021"
publish = false

[dependencies]
shlex = "1"
url = "2"
sha2 = "0.10"
base64 = "0.22"
serde_yaml = "0.9"
serde = { version = "1", features = ["derive"] }
serde_json = "1"
axum = "0.8"
tokio = { version = "1", features = ["full"] }
tokio-stream = { version = "0.1", features = ["sync"] }
futures = "0.3"
bollard = "0.18"
reqwest = { version = "0.12", default-features = false, features = ["json", "rustls-tls"] }
jsonwebtoken = "9"
chrono = "0.4"
uuid = { version = "1", features = ["v4"] }
rusqlite = { version = "0.32", features = ["bundled"] }
deadpool-sqlite = "0.9"
git2 = { version = "0.19", default-features = false }
anyhow = "1"
tracing = "0.1"
tracing-subscriber = { version = "0.3", features = ["env-filter", "json"] }
tower-http = { version = "0.6", features = ["cors"] }
dotenvy = "0.15"
