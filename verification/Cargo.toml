[package]
name = "listener_radio"
version = "0.1.0"
edition = "2021"
publish = false

[dependencies]
anyhow = "1"
async-graphql = "5"
async-graphql-axum = "5"
autometrics = { version = "0.3", features = ["prometheus-exporter"] }
axum = "0.6"
chrono = "0.4"
clap = { version = "3.2", features = ["derive", "env"] }
derive-getters = "0.2"
dotenv = "0.15"
once_cell = "1"
prometheus = { version = "0.13", default-features = false }
reqwest = { version = "0.11", default-features = false, features = ["json"] }
serde = { version = "1", features = ["derive"] }
serde_json = "1"
sqlx = { version = "0.7", default-features = false, features = ["runtime-tokio", "postgres", "json", "migrate"] }
thiserror = "1"
tokio = { version = "1", features = ["rt-multi-thread", "macros", "time", "signal", "sync"] }
tracing = "0.1"

[dev-dependencies]
prost = "0.11"
