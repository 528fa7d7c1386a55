[package]
name = "soroban-fork"
version = "0.1.0"
edition = "2021"
publish = false

[dependencies]
axum = "=0.8.9"
base64 = "=0.22.1"
clap = { version = "=4.6.7", features = ["derive", "env"] }
ed25519-dalek = "=2.2.0"
env_logger = "=0.11.11"
log = "=0.4.35"
reqwest = { version = "=0.12.28", default-features = false, features = ["blocking", "json", "rustls-tls"] }
serde = { version = "=1.0.229", features = ["derive"] }
serde_json = "=1.0.154"
sha2 = "=0.10.9"
soroban-env-host = { version = "=25.2.2", features = ["recording_mode", "testutils"] }
soroban-ledger-snapshot = "=25.3.2"
soroban-sdk = { version = "=25.3.2", features = ["testutils"] }
stellar-strkey = "=0.0.16"
thiserror = "=2.0.21"
tokio = { version = "=1.54.1", features = ["rt-multi-thread", "macros", "sync", "net", "signal"] }
tower-http = { version = "=0.6.11", features = ["cors"] }
