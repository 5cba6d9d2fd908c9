[package]
name = "pg_task_scheduler"
version = "0.1.0"
edition = "2021"
publish = false

[dependencies]
axum = "=0.7.9"
chrono = "=0.4.45"
croner = "=2.2.0"
diesel = { version = "=2.2.12", default-features = false, features = ["postgres_backend", "chrono", "uuid", "serde_json", "32-column-tables"] }
diesel-async = { version = "=0.5.2", features = ["postgres", "deadpool", "bb8", "mobc"] }
diesel-derive-enum = { version = "=2.1.0", features = ["postgres"] }
futures = "=0.3.34"
gnort = "=0.2.0"
scoped-futures = "=0.1.4"
serde = { version = "=1.0.229", features = ["derive"] }
serde_json = "=1.0.154"
thiserror = "=1.0.69"
tokio = { version = "=1.54.1", features = ["rt", "macros", "time", "sync"] }
tokio-util = "=0.7.20"
tracing = "=0.1.44"
uuid = { version = "=1.29.0", features = ["v4", "serde"] }
