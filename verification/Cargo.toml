[package]
name = "tpcc_core"
version = "0.1.0"
edition = "2021"
publish = false

[dependencies]
rand = "=0.8.8"
chrono = { version = "=0.4.45", features = ["serde"] }
serde = { version = "=1.0.229", features = ["derive"] }
axum = "=0.7.9"
tokio = { version = "=1.53.2", features = ["rt-multi-thread", "macros", "net"] }
reqwest = { version = "=0.12.28", default-features = false, features = ["json"] }
url = "=2.5.8"
clap = { version = "=4.6.7", features = ["derive"] }
log = "=0.4.34"
env_logger = "=0.11.11"
futures = "=0.3.34"
num_cpus = "=1.17.0"
