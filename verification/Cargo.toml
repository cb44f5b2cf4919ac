[package]
name = "marginguard"
version = "0.1.0"
edition = "2021"
publish = false

[dependencies]
anyhow = "1"
async-graphql = "7"
async-graphql-axum = "7"
async-trait = "0.1"
axum = "0.8"
clap = { version = "4", features = ["derive", "env"] }
dotenvy = "0.15"
futures = "0.3"
metrics = "0.24"
metrics-exporter-prometheus = { version = "*", default-features = false }
parking_lot = "0.12"
reqwest = { version = "0.12", default-features = false, features = ["json"] }
serde = { version = "1", features = ["derive"] }
serde_json = "1"
sqlx = { version = "0.8", default-features = false, features = ["postgres", "runtime-tokio"] }
thiserror = "2"
tokio = { version = "1", features = ["full"] }
tokio-stream = { version = "0.1", features = ["sync"] }
tracing = "0.1"
tracing-subscriber = { version = "0.3", features = ["env-filter", "json"] }
