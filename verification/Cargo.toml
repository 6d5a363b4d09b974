[package]
name = "tasks_api"
version = "0.1.0"
edition = "2021"
publish = false

[dependencies]
axum = "=0.6.20"
chrono = { version = "=0.4.45", default-features = false, features = ["clock", "std", "serde"] }
serde = { version = "=1.0.229", features = ["derive"] }
serde_json = "=1.0.154"
sqlx = { version = "=0.7.4", default-features = false, features = ["runtime-tokio", "sqlite", "chrono"] }
tokio = { version = "=1.54.1", features = ["macros", "rt-multi-thread"] }
tracing-subscriber = "=0.3.23"
uuid = { version = "=1.29.0", features = ["v4", "serde"] }
