[package]
name = "svc-compliance"
version = "0.1.0"
edition = "2021"
publish = false

[dependencies]
anyhow = "=1.0.104"
chrono = "=0.4.45"
config = { version = "=0.13.4", default-features = false }
deadpool-lapin = { version = "=0.11.0", features = ["serde"] }
dotenv = "=0.15.0"
lapin = "=2.5.5"
log = "=0.4.34"
prost = "=0.11.9"
prost-types = "=0.11.9"
regex = "=1.13.1"
serde = { version = "=1.0.229", features = ["derive"] }
serde_json = "=1.0.154"
svc-storage-client-grpc = "=0.2.0"
thiserror = "=1.0.69"
tokio = { version = "=1.54.1", features = ["macros", "rt-multi-thread", "signal", "sync", "time"] }
tonic = "=0.8.3"
tonic-health = "=0.8.0"
