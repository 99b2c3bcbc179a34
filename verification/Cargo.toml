[package]
name = "uptime_checker"
version = "0.1.0"
edition = "2021"
publish = false

[dependencies]
associative-cache = "=2.0.0"
axum = "=0.8.9"
chrono = "=0.4.45"
clap = { version = "=4.6.7", features = ["derive"] }
figment = { version = "=0.10.19", features = ["yaml", "env"] }
hickory-resolver = "=0.24.4"
http = "=1.5.0"
hyper = "=1.12.0"
ipnet = "=2.12.2"
isahc = "=1.8.3"
jsonpath-rust = "=1.0.12"
metrics = "=0.24.6"
metrics-exporter-statsd = "=0.9.0"
openssl = "=0.10.82"
pest = "=2.9.5"
redis = { version = "=0.27.6", features = ["tokio-comp", "cluster-async"] }
regex = "=1.13.1"
reqwest = { version = "=0.12.28", default-features = false, features = ["native-tls"] }
rmp-serde = "=1.3.1"
sentry = { version = "=0.42.0", default-features = false, features = ["tracing", "logs"] }
sentry-kafka-schemas = { version = "=1.3.18", default-features = false }
sentry_arroyo = "=2.49.0"
serde = { version = "=1.0.229", features = ["derive"] }
serde_json = "=1.0.154"
texting_robots = "=0.2.2"
tokio = { version = "=1.54.1", features = ["full"] }
tokio-util = "=0.7.20"
tracing = "=0.1.44"
tracing-subscriber = { version = "=0.3.23", features = ["json"] }
uuid = { version = "=1.29.0", features = ["v4", "v5", "serde"] }
