[package]
name = "huawei_metrics"
version = "0.1.0"
edition = "2021"
publish = false

[dependencies]
regex = "1"
clap = "2"
dotenv = "0.15"
fantoccini = "0.17"
log = "0.4"
pretty_env_logger = "0.4"
prometheus = "0.13"
serde = { version = "1", features = ["derive"] }
serde_json = "1"
tokio = { version = "1", features = ["macros", "rt-multi-thread", "time"] }
