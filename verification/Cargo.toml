[package]
name = "otlp_forwarder"
version = "0.1.0"
edition = "2021"
publish = false

[dependencies]
hex = "=0.4.3"
http = "=1.5.0"
regex = "=1.13.1"
globset = "=0.4.21"
base64 = "=0.22.1"
flate2 = "=1.1.10"
prost = "=0.14.4"
opentelemetry-proto = { version = "=0.33.1", features = ["gen-tonic-messages", "trace", "with-serde"] }
serde_json = "=1.0.154"
otlp-stdout-span-exporter = "=0.18.0"
serde = { version = "=1.0.229", features = ["derive"] }
clap = { version = "=4.6.7", features = ["derive"] }
toml = "=1.1.8"
indexmap = { version = "=2.14.2", features = ["serde"] }
tokio = { version = "=1.54.1", features = ["full"] }
reqwest = { version = "=0.12.28", default-features = false, features = ["rustls-tls"] }
colored = "=3.1.1"
comfy-table = "=8.0.1"
terminal_size = "=0.4.4"
chrono = "=0.4.45"
indicatif = "=0.18.6"
anyhow = "=1.0.104"
tracing = "=0.1.44"
tracing-subscriber = { version = "=0.3.23", features = ["env-filter"] }
futures = "=0.3.34"
aws-config = "=1.13.0"
aws-sdk-cloudwatchlogs = "=1.162.0"
aws-sdk-cloudformation = "=1.136.0"
aws-sdk-sts = "=1.124.0"
sha2 = "0.10"
