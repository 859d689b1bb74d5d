[package]
name = "mll"
version = "0.1.0"
edition = "2021"
publish = false

[dependencies]
axum = "0.8"
clap = { version = "4", features = ["cargo"] }
futures = "0.3"
http-body-util = "0.1"
hyper-util = { version = "0.1", features = ["client-legacy", "http1", "tokio"] }
interprocess = { version = "2", features = ["tokio"] }
nix = { version = "0.29", features = ["signal"] }
nvml-wrapper = "*"
parking_lot = "0.12"
pin-project-lite = "0.2"
serde = { version = "1", features = ["derive"] }
serde_json = "1"
tokio = { version = "1", features = ["full"] }
toml = "0.8"
