[package]
name = "heirloom_backend"
version = "0.1.0"
edition = "2021"
publish = false

[dependencies]
flate2 = "1"
chrono = { version = "0.4", features = ["serde"] }
uuid = { version = "1", features = ["v4", "serde"] }
rand = "0.8"
serde = { version = "1", features = ["derive"] }
serde_json = "1"
thiserror = "1"
tracing = "0.1"
tokio = { version = "1", features = ["sync", "time", "rt", "macros"] }
axum = "0.7"
rusqlite = { version = "0.31", features = ["bundled"] }
redis = { version = "0.25", default-features = false }
reqwest = { version = "0.12", default-features = false, features = ["json"] }
