[package]
name = "random_rendezvous"
version = "0.1.0"
edition = "2021"
publish = false

[dependencies]
tokio = { version = "*", features = ["full"] }
tokio-util = "*"
axum = { version = "*", features = ["ws"] }
tower = "*"
tower-http = { version = "*", features = ["request-id", "trace", "timeout", "limit", "util", "fs"] }
redis = { version = "*", features = ["tokio-comp"] }
deadpool-redis = "*"
futures-util = "*"
serde = { version = "*", features = ["derive"] }
serde_json = "*"
uuid = { version = "*", features = ["v7", "serde"] }
anyhow = "*"
thiserror = "*"
tracing = "*"
tracing-subscriber = "*"
