[package]
name = "httpbin"
version = "0.1.0"
edition = "2021"
publish = false

[dependencies]
base64 = "0.22"
uuid = { version = "1", features = ["v1", "v3", "v4", "v5", "v6", "v7", "v8"] }
anyhow = "1"
axum = "0.7"
clap = { version = "4", features = ["derive"] }
infer = "*"
serde = { version = "1", features = ["derive"] }
serde_json = "1"
serde_qs = "*"
serde_with = "3"
thiserror = "1"
tokio = { version = "1", features = ["rt-multi-thread", "macros", "net"] }
toml = "0.8"
tower-http = { version = "0.5", features = ["cors", "trace", "normalize-path"] }
tower-layer = "0.3"
tracing-subscriber = "0.3"
