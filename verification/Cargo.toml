[package]
name = "mcp_hub"
version = "0.1.0"
edition = "2021"
publish = false

[dependencies]
anyhow = "1"
askama = "*"
askama_web = { version = "*", features = ["axum-0.8"] }
axum = "0.8"
clap = { version = "4", features = ["derive", "env"] }
comfy-table = "7"
dialoguer = "*"
dirs = "*"
futures-util = "0.3"
nix = { version = "*", features = ["signal", "process"] }
owo-colors = "4"
rand = "0.9"
serde = { version = "1", features = ["derive"] }
serde_json = "1"
tokio = { version = "1", features = ["full"] }
tokio-stream = { version = "0.1", features = ["sync"] }
tokio-util = "0.7"
toml = "*"
tracing = "0.1"
tracing-subscriber = { version = "0.3", features = ["env-filter"] }
