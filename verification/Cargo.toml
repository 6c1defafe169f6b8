[package]
name = "sec-mcp"
version = "0.5.0"
edition = "2021"
publish = false

[dependencies]
anyhow = "=1.0.104"
dirs = "=7.0.0"
reqwest = { version = "=0.13.5", default-features = false, features = ["gzip", "json", "rustls-no-provider"] }
rmcp = { version = "=3.0.1", features = ["server", "macros", "transport-io"] }
roxmltree = "=0.21.2"
rustls = { version = "=0.23.46", default-features = false, features = ["ring", "std", "tls12"] }
schemars = "=1.2.3"
serde = { version = "=1.0.229", features = ["derive"] }
serde_json = "=1.0.154"
tokio = { version = "=1.54.1", features = ["io-std", "macros", "rt-multi-thread", "sync"] }
toml = "=1.1.8"
tracing = "=0.1.44"
tracing-subscriber = { version = "=0.3.23", features = ["env-filter"] }
urlencoding = "=2.1.3"
