[package]
name = "stecker"
version = "0.1.0"
edition = "2021"
publish = false

[dependencies]
anyhow = "=1.0.104"
async-graphql = "=7.2.1"
async-graphql-axum = "=7.2.1"
axum = "=0.7.9"
base64 = "=0.22.1"
bytes = "=1.12.1"
clap = { version = "=4.6.7", features = ["derive"] }
futures = "=0.3.34"
minijinja = { version = "=2.24.0", features = ["loader"] }
rand = "=0.8.8"
regex = "=1.13.1"
reqwest = { version = "0.12", default-features = false }
rosc = "=0.11.4"
serde = { version = "=1.0.229", features = ["derive"] }
serde_json = "=1.0.154"
tokio = { version = "=1.54.1", features = ["full"] }
tokio-util = { version = "=0.7.20", features = ["codec"] }
tower = "=0.4.13"
tower-http = { version = "=0.5.2", features = ["fs"] }
tracing = "=0.1.44"
tracing-subscriber = "=0.3.23"
uuid = { version = "=1.29.0", features = ["v4"] }
webrtc = "=0.11.0"
