[package]
name = "strimzi_ops"
version = "0.1.0"
edition = "2021"
publish = false

[dependencies]
serde = { version = "1", features = ["derive"] }
serde_json = "1"
serde_yaml = "*"
toml = "*"
regex = "1"
clap = { version = "4", features = ["derive"] }
thiserror = "*"
reqwest = { version = "*", default-features = false, features = ["blocking", "json"] }
url = "2"
uuid = { version = "1", features = ["v4"] }
rdkafka = "*"
tokio = { version = "1", features = ["rt-multi-thread", "macros", "net"] }
axum = "*"
askama = "*"
askama_web = { version = "*", features = ["axum-0.8"] }
tower-http = { version = "*", features = ["fs", "trace"] }
