[package]
name = "phala_mq"
version = "0.1.0"
edition = "2021"
publish = false

[dependencies]
parity-scale-codec = { version = "=3.7.5", features = ["derive"] }
thiserror = "=1.0.69"
anyhow = "=1.0.104"
serde = { version = "=1.0.229", features = ["derive"] }
serde_json = "=1.0.154"
clap = { version = "=4.6.7", features = ["derive", "env"] }
log = "=0.4.34"
env_logger = "=0.10.2"
tokio = { version = "=1.54.1", features = ["rt", "rt-multi-thread", "sync", "macros"] }
futures = "=0.3.34"
lazy_static = "=1.5.1"
uuid = "1"
indradb-lib = "=3.0.4"
