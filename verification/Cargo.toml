[package]
name = "kvstore"
version = "0.1.0"
edition = "2021"
publish = false

[dependencies]
axum = "0.7"
serde_json = "1"
sqlx = { version = "0.7", default-features = false, features = ["runtime-tokio", "sqlite"] }
tokio = { version = "1", features = ["full"] }
tower-http = { version = "0.5", features = ["cors"] }
