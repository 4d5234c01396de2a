[package]
name = "orpheon"
version = "0.1.0"
edition = "2021"
publish = false

[dependencies]
sha2 = "*"
uuid = { version = "*", features = ["v4", "serde"] }
chrono = { version = "*", features = ["serde"] }
serde = { version = "*", features = ["derive"] }
serde_json = "*"
tokio = { version = "*", features = ["full"] }
axum = { version = "*", features = ["ws"] }
tower-http = { version = "*", features = ["cors", "trace"] }
tracing = "*"
tracing-subscriber = "*"
anyhow = "*"
futures = "*"
reqwest = { version = "*", default-features = false, features = ["json"] }
tokio-tungstenite = "*"
async-trait = "*"
thiserror = "*"
