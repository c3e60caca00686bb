[package]
name = "tokio_events"
version = "0.3.2"
edition = "2021"
publish = false

[dependencies]
uuid = { version = "=1.29.0", features = ["v4"] }
chrono = "=0.4.45"
num_cpus = "=1.17.0"
fxhash = "=0.2.1"
serde = { version = "=1.0.229", features = ["derive"] }
serde_json = "=1.0.154"
thiserror = "=2.0.21"
tokio = { version = "=1.54.1", features = ["full"] }
futures = "=0.3.34"
async-trait = "=0.1.92"
tracing = "=0.1.44"
redb = "=4.4.0"
async-nats = "=0.51.0"
dashmap = "6"
