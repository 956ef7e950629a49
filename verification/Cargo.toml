[package]
name = "symphony"
version = "0.1.0"
edition = "2021"
publish = false
rust-version = "1.95"

[dependencies]
async-trait = "=0.1.92"
axum = "=0.8.9"
chrono = { version = "=0.4.45", features = ["serde"] }
clap = { version = "=4.6.7", features = ["derive"] }
dirs = "=6.0.0"
# Not called here: liquid depends on it, and later releases need a newer compiler.
kstring = "=2.0.2"
liquid = "=0.26.11"
notify = "=8.2.1"
reqwest = { version = "=0.12.28", default-features = false, features = ["json", "rustls-tls"] }
serde = { version = "=1.0.229", features = ["derive"] }
serde_json = "=1.0.154"
serde_yaml = "=0.9.34"
thiserror = "=2.0.21"
tokio = { version = "=1.54.1", features = ["full"] }
tracing = "=0.1.44"
tracing-subscriber = { version = "=0.3.23", features = ["env-filter", "json"] }
