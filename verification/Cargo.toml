[package]
name = "domain_mcp"
version = "0.1.0"
edition = "2021"
publish = false

[dependencies]
anyhow = "1"
chrono = "0.4"
futures = "0.3"
regex = "1"
reqwest = { version = "0.12", features = ["json"] }
rmcp = { version = "*", features = ["server", "transport-io"] }
rustls = "0.23"
serde = { version = "1", features = ["derive"] }
serde_json = "1"
tempfile = "3"
tokio = { version = "1", features = ["full"] }
tracing = "0.1"
tracing-subscriber = "0.3"
webpki-roots = "*"
