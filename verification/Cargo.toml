[package]
name = "job_service"
version = "0.1.0"
edition = "2021"
publish = false

[dependencies]
cron = "=0.12.1"
chrono = "=0.4.45"
bcrypt = "=0.15.1"
uuid = { version = "=1.29.0", features = ["v4"] }
tokio = { version = "=1.54.1", features = ["full"] }
axum = "=0.7.9"
tower-http = { version = "=0.5.2", features = ["cors", "fs"] }
tracing = "=0.1.44"
tracing-subscriber = "=0.3.23"
serde = { version = "=1.0.229", features = ["derive"] }
serde_json = "=1.0.154"
jsonwebtoken = { version = "=9.3.1", default-features = false }
reqwest = { version = "=0.12.28", default-features = false, features = ["json", "rustls-tls"] }
deadpool-redis = "=0.15.1"
redis = { version = "=0.25.5", features = ["tokio-comp"] }
lapin = { version = "=2.5.5", default-features = false }
lettre = { version = "=0.11.23", default-features = false, features = ["builder", "smtp-transport", "tokio1", "tokio1-rustls-tls"] }
sqlx = { version = "=0.7.4", default-features = false, features = ["runtime-tokio", "postgres", "sqlite"] }
dotenvy = "=0.15.7"
async-trait = "=0.1.92"
futures-util = "=0.3.34"
dialoguer = "=0.11.0"
sea-orm = { version = "=0.12.15", default-features = false, features = ["macros", "sqlx-postgres", "sqlx-sqlite", "runtime-tokio", "with-chrono", "with-json", "with-uuid", "with-rust_decimal"] }
