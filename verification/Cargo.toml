[package]
name = "vibe-kanban"
version = "0.1.0"
edition = "2021"
publish = false

[dependencies]
axum = "0.8"
chrono = { version = "0.4", features = ["serde"] }
serde = { version = "1", features = ["derive"] }
serde_json = "1"
sqlx = { version = "0.8", default-features = false, features = ["runtime-tokio", "sqlite", "macros", "uuid"] }
tokio = { version = "1", features = ["rt", "process", "macros", "sync"] }
ts-rs = { version = "*", features = ["uuid-impl", "serde-compat"] }
url = "2"
uuid = { version = "1", features = ["v4", "serde"] }
