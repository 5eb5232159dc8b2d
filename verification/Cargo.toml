[package]
name = "frog"
version = "0.1.0"
edition = "2021"
publish = false

[dependencies]
uuid = "=1.29.0"
rand = "=0.8.8"
serde = { version = "=1.0.229", features = ["derive"] }
serde_json = "=1.0.154"
bincode = "=1.3.3"
anyhow = "=1.0.104"
thiserror = "=2.0.21"
tokio = { version = "=1.54.1", features = ["rt-multi-thread", "macros", "sync", "time"] }
async-trait = "=0.1.92"
log = "=0.4.35"
tracing = "=0.1.44"
axum = "=0.8.9"
reqwest = { version = "=0.12.28", default-features = false, features = ["json"] }
clap = { version = "=4.6.7", features = ["derive"] }
tower = { version = "=0.5.3", features = ["timeout", "util"] }
tower-http = { version = "=0.6.11", features = ["timeout", "limit"] }
