[package]
name = "kleos"
version = "0.1.0"
edition = "2021"
publish = false

[dependencies]
serde = { version = "1", features = ["derive"] }
serde_json = "1"
ssh-key = { version = "0.6", features = ["ed25519", "std"] }
signature = "2"
hex = "0.4"
clap = { version = "4", features = ["derive", "env"] }
tokio = { version = "1", features = ["full"] }
axum = "0.7"
futures = "0.3"
async-stream = "0.3"
async-trait = "0.1"
notify = "6"
notify-debouncer-mini = "0.4"
dirs = "5"
rusqlite = { version = "0.31", features = ["bundled"] }
ed25519-dalek = "2"
tracing = "0.1"
anyhow = "1"
thiserror = "1"
