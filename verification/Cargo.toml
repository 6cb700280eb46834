[package]
name = "iot_sim"
version = "0.1.0"
edition = "2021"
publish = false

[dependencies]
chrono = { version = "0.4", default-features = false, features = ["std", "clock"] }
serde = { version = "1", features = ["derive"] }
serde_json = "1"
thiserror = "1"
rand = "0.8"
rand_distr = "0.4"
tokio = { version = "1", features = ["rt-multi-thread", "macros", "time", "signal", "net", "sync"] }
tokio-util = "0.7"
async-trait = "0.1"
tracing = "0.1"
tracing-subscriber = { version = "0.3", features = ["env-filter"] }
axum = "0.7"
prometheus = { version = "0.13", default-features = false }
config = { version = "0.14", default-features = false, features = ["yaml"] }
tempfile = "3"
parquet = { version = "53", default-features = false, features = ["snap"] }
aws-config = { version = "1", features = ["behavior-version-latest"] }
aws-sdk-s3 = "1"
rdkafka = "0.36"
