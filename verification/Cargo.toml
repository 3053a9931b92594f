[package]
name = "user_service"
version = "0.1.0"
edition = "2021"
publish = false

[dependencies]
adjust = { version = "=0.1.34", features = ["redis"] }
anyhow = "=1.0.104"
axum = "=0.8.9"
chrono = { version = "=0.4.45", features = ["serde"] }
diesel = { version = "=2.3.14", features = ["postgres", "chrono", "serde_json"] }
diesel-derive-enum = { version = "=2.1.0", features = ["postgres"] }
once_cell = "=1.21.4"
reqwest = { version = "=0.13.5", default-features = false }
serde = { version = "=1.0.229", features = ["derive"] }
serde_json = "=1.0.154"
tokio = { version = "=1.54.1", features = ["rt"] }
