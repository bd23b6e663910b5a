[package]
name = "open_live_ingest"
version = "0.3.0"
edition = "2021"
publish = false

[dependencies]
anyhow = "=1.0.104"
axum = { version = "=0.8.9", default-features = false, features = ["http1", "json", "tokio"] }
clap = { version = "=4.6.7", features = ["derive", "env"] }
console = { version = "=0.16.6", default-features = false, features = ["std"] }
crossterm = { version = "=0.29.0", features = ["event-stream"] }
dialoguer = { version = "=0.12.0", default-features = false }
futures-util = "=0.3.34"
hostname = "=0.4.2"
libc = "=0.2.191"
ratatui = { version = "=0.30.2", default-features = false, features = ["crossterm"] }
reqwest = { version = "=0.12.28", default-features = false, features = ["json", "rustls-tls"] }
rpassword = "=7.5.4"
serde = { version = "=1.0.229", features = ["derive"] }
serde_json = "=1.0.154"
tokio = { version = "=1.54.1", features = ["full"] }
tokio-tungstenite = { version = "=0.30.0", features = ["rustls-tls-webpki-roots"] }
toml = "=1.1.8"
tracing = "=0.1.44"
tracing-subscriber = { version = "=0.3.23", features = ["env-filter"] }
uuid = { version = "=1.29.0", features = ["v5"] }
