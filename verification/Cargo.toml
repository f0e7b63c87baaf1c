[package]
name = "thumbor"
version = "0.1.0"
edition = "2021"
publish = false

[dependencies]
anyhow = "1"
async-trait = "0.1"
axum = "0.2"
base64 = "0.13"
bytes = "1"
image = "0.24"
lru = "0.7"
percent-encoding = "2"
prost = "0.8"
regex = "1"
reqwest = "0.11"
serde = { version = "1", features = ["derive"] }
tokio = { version = "1", features = ["full"] }
tower = "0.4"
tracing = "0.1"
tracing-subscriber = "0.3"
