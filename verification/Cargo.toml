[package]
name = "rate_limiter"
version = "0.1.0"
edition = "2021"
publish = false

[dependencies]
async-trait = "0.1"
axum = "*"
dashmap = "*"
redis = "*"
thiserror = "*"
tokio = { version = "1", features = ["full"] }
