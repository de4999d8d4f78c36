[package]
name = "pms5003_exporter"
version = "0.1.0"
edition = "2021"
publish = false

[dependencies]
tokio = { version = "1", features = ["full"] }
axum = "0.6"
clap = { version = "4", features = ["derive"] }
tokio-serial = "5"
