[package]
name = "bugbounty_server"
version = "0.1.0"
edition = "2021"
publish = false

[dependencies]
regex = "=1.13.1"
axum = "=0.8.9"
tokio = { version = "=1.54.1", features = ["full"] }
reqwest = { version = "=0.12.28", default-features = false, features = ["json", "rustls-tls"] }
serde = { version = "=1.0.229", features = ["derive"] }
serde_json = "=1.0.154"
chrono = "=0.4.45"
toml = "=0.8.23"
tower-http = { version = "=0.6.11", features = ["cors", "fs"] }
tracing = "=0.1.44"
tracing-subscriber = { version = "=0.3.23", features = ["env-filter"] }
walkdir = "=2.5.0"
pulldown-cmark = "=0.12.2"
notify = "=6.1.1"
futures-util = "=0.3.34"
tokio-stream = { version = "=0.1.19", features = ["sync"] }
tantivy = "=0.22.1"
fastembed = { version = "5", default-features = false, features = ["hf-hub-rustls-tls", "ort-load-dynamic"] }
