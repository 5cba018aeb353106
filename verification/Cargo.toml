[package]
name = "pulse"
version = "0.2.0"
edition = "2021"
publish = false

[dependencies]
async-trait = "0.1"
axum = "0.8"
base64 = "0.22"
prometheus = "0.14"
prost = "0.14"
prost-types = "0.14"
rand = "0.9"
rdkafka = { version = "0.38", features = ["tokio"] }
redis = { version = "0.32", features = ["tokio-comp", "script"] }
serde = { version = "1", features = ["derive"] }
serde_json = "1"
tokio = { version = "1", features = ["full"] }
tonic = "0.14"
tracing = "0.1"
tracing-subscriber = { version = "0.3", features = ["env-filter"] }
uuid = { version = "1", features = ["v4"] }
