[package]
name = "arazzo_runtime"
version = "0.1.0"
edition = "2021"
publish = false

[dependencies]
regex = "=1.13.1"
url = "=2.5.8"
percent-encoding = "=2.3.2"
serde_json = "=1.0.154"
serde_yaml_ng = "=0.10.0"
uppsala = "=0.4.0"
reqwest = { version = "=0.12.28", default-features = false, features = ["rustls-tls-no-provider"] }
tokio = { version = "=1.54.1", features = ["rt", "time", "sync", "macros"] }
tokio-util = "=0.7.20"
serde = { version = "=1.0.229", features = ["derive"] }
