[package]
name = "shepherd"
version = "0.1.0"
edition = "2021"
publish = false

[dependencies]
serde_yaml = "0.9"
walkdir = "2"
axum = "0.8"
axum-server = "0.7"
tokio = { version = "1", features = ["rt-multi-thread", "macros"] }
clap = { version = "4", features = ["derive"] }
serde = { version = "1", features = ["derive"] }
dotenvy = "0.15"
tracing = "0.1"
tracing-subscriber = { version = "0.3", features = ["env-filter", "fmt"] }
eyre = "0.6"
color-eyre = "0.6"
