[package]
name = "observability_lib"
version = "0.1.0"
edition = "2021"
publish = false

[dependencies]
async-openai = { version = "=0.28.3", features = ["byot"] }
async-trait = "0.1"
axum = { version = "=0.8.9", features = ["macros", "ws"] }
dotenv = "0.15"
futures = "0.3"
http-body = "1"
metrics = "=0.24.6"
metrics-exporter-prometheus = { version = "=0.17.2", default-features = false }
pin-project-lite = "0.2"
rand = "=0.9.5"
reqwest = { version = "=0.12.28", default-features = false, features = ["rustls-tls"] }
reqwest-middleware = { version = "=0.4.2", default-features = false }
serde = { version = "1", features = ["derive"] }
serde_json = "=1.0.154"
tokio = { version = "1", features = ["full"] }
tracing = "=0.1.44"
tracing-subscriber = "=0.3.23"
