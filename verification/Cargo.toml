[package]
name = "rust_gcp"
version = "0.1.0"
edition = "2021"
publish = false

[dependencies]
apache-avro = "=0.17.0"
serde = { version = "1", features = ["derive"] }
serde_json = "1"
serde-pickle = "*"
base64 = "*"
once_cell = "*"
tokio = { version = "1", features = ["rt-multi-thread", "sync", "time", "macros"] }
deadpool-redis = { version = "*", features = ["rt_tokio_1"] }
google-cloud-pubsub = "=0.30.0"
google-cloud-googleapis = "=0.16.1"
