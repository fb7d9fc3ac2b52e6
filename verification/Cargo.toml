[package]
name = "comment_harvester"
version = "0.1.0"
edition = "2021"
publish = false

[dependencies]
encoding = "=0.2.33"
serde_json = "=1.0.154"
serde = { version = "=1.0.229", features = ["derive"] }
serde_derive = "=1.0.229"
bson = "=0.12.3"
mongodb = "=0.3.10"
mysql = "=17.0.0"
hyper = "=0.12.36"
hyper-tls = "=0.3.2"
futures = "=0.1.31"
tokio-core = "=0.1.18"
config = "=0.9.3"
log = "=0.3.9"
env_logger = "=0.4.3"
chrono = "=0.4.45"
