[package]
name = "the_league"
version = "0.1.0"
edition = "2021"
publish = false

[dependencies]
anyhow = "=1.0.104"
axum = "=0.7.9"
futures = "=0.3.34"
k8s-openapi = { version = "=0.24.0", features = ["latest", "schemars"] }
kube = { version = "=0.98.0", default-features = false, features = ["client", "runtime", "derive"] }
schemars = "=0.8.22"
serde = { version = "=1.0.229", features = ["derive"] }
serde_json = "=1.0.154"
serde_yaml = "=0.9.34"
tokio = { version = "=1.54.1", features = ["full"] }
tracing = "=0.1.44"
tracing-subscriber = { version = "=0.3.23", features = ["env-filter"] }
