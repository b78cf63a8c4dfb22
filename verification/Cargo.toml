[package]
name = "lsp_muxd"
version = "0.1.0"
edition = "2021"
publish = false

[dependencies]
anyhow = "=1.0.104"
bytes = "=1.12.1"
futures = "=0.3.34"
lsp-codec = "=0.3.0"
serde = { version = "=1.0.229", features = ["derive"] }
serde_json = "=1.0.154"
tokio = { version = "=1.54.1", features = ["full"] }
tokio-util = { version = "=0.6.10", features = ["codec"] }
tower-lsp = "=0.20.0"
tracing = "=0.1.44"
tracing-subscriber = "=0.3.23"
