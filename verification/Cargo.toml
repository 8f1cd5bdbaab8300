[package]
name = "arkd-core"
version = "0.1.0"
edition = "2021"
publish = false

[dependencies]
image = { version = "=0.25.10", default-features = false, features = ["png", "jpeg"] }
subtle = "=2.6.1"
serde = { version = "=1.0.229", features = ["derive"] }
serde_json = "=1.0.154"
toml = "=1.1.8"
tokio = { version = "=1.54.1", features = ["full"] }
clap = { version = "=4.6.7", features = ["derive"] }
anyhow = "=1.0.104"
thiserror = "=2.0.21"
strsim = "=0.11.1"
base64 = "=0.23.1"
axum = "=0.8.9"
tower-http = { version = "=0.7.1", features = ["trace"] }
rmcp = { version = "=3.8.0", features = ["server", "macros", "transport-streamable-http-server"] }
schemars = "=1.2.3"
tracing = "=0.1.44"
tracing-subscriber = { version = "=0.3.23", features = ["env-filter"] }
indexmap = "=2.14.2"
