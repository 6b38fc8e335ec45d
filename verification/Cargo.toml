[package]
name = "fhe_server"
version = "0.1.0"
edition = "2021"
publish = false

[dependencies]
tfhe = { version = "=0.6.4", features = ["boolean", "shortint", "integer", "x86_64-unix"] }
axum = "=0.8.9"
tokio = { version = "=1.53.2", features = ["full"] }
serde = { version = "=1.0.229", features = ["derive"] }
bincode = "=1.3.3"
