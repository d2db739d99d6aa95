[package]
name = "praxis_extproc"
version = "0.1.0"
edition = "2021"
publish = false

[dependencies]
bytes = "=1.12.1"
clap = { version = "=4.6.7", features = ["derive"] }
rcgen = "=0.13.2"
serde = { version = "=1.0.229", features = ["derive"] }
serde_yaml = "=0.9.34"
thiserror = "=2.0.21"
tokio = { version = "=1.54.1", features = ["full"] }
tokio-stream = "=0.1.19"
tonic = { version = "=0.14.9", features = ["tls-ring"] }
tonic-health = "=0.14.9"
tracing = "=0.1.44"
tracing-subscriber = { version = "=0.3.23", features = ["env-filter"] }
