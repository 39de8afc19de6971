[package]
name = "modelrouter"
version = "0.1.0"
edition = "2021"
publish = false

[dependencies]
anyhow = "1"
arc-swap = "1"
async-trait = "0.1"
axum = { version = "0.7", features = ["multipart"] }
base64 = "0.22"
bcrypt = "0.15"
bytes = "1"
chrono = { version = "0.4", features = ["serde"] }
dashmap = "6"
futures = "0.3"
hex = "0.4"
jsonwebtoken = "9"
minijinja = { version = "2", features = ["json"] }
rand = "0.8"
reqwest = { version = "0.12", default-features = false, features = ["json", "multipart", "stream"] }
serde = { version = "1", features = ["derive"] }
serde_json = { version = "1", features = ["raw_value"] }
sha2 = "0.10"
sqlx = { version = "0.8", default-features = false }
thiserror = "1"
tokio = { version = "1", features = ["rt-multi-thread", "macros", "sync", "time", "net", "signal"] }
tower-http = { version = "0.6", features = ["trace"] }
tracing = "0.1"
urlencoding = "2"
uuid = { version = "1", features = ["v4"] }
