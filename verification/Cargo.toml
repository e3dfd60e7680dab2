[package]
name = "lustrefs_exporter"
version = "0.1.0"
edition = "2021"
publish = false

[dependencies]
prometheus-client = "*"
yaml_serde = "*"
serde = { version = "1", features = ["derive"] }
thiserror = "*"
tracing = "*"
tokio = { version = "1", features = ["full"] }
axum = "*"
tower = { version = "*", features = ["limit", "load-shed", "timeout", "util"] }
tower-http = { version = "*", features = ["compression-full"] }
