[package]
name = "pq"
version = "0.1.0"
edition = "2021"
publish = false

[dependencies]
anyhow = "*"
arrow = "=59.3.0"
clap = { version = "*", features = ["derive"] }
comfy-table = "*"
datafusion = "=55.2.0"
glob = "*"
parquet = "=59.3.0"
serde = { version = "*", features = ["derive"] }
serde_json = "*"
thiserror = "*"
tokio = { version = "*", features = ["rt-multi-thread", "macros"] }
