[package]
name = "llmos"
version = "0.1.0"
edition = "2021"
publish = false

[dependencies]
serde_json = "1"
cron = "*"
serde = { version = "1", features = ["derive"] }
tokio = { version = "1", features = ["full"] }
axum = "*"
clap = { version = "4", features = ["derive", "env"] }
reqwest = { version = "*", default-features = false }
tracing = "0.1"
tracing-subscriber = { version = "0.3", features = ["env-filter", "fmt"] }
chrono = "0.4"
thiserror = "*"
async-trait = "0.1"
