[package]
name = "inspektor"
version = "0.0.1"
edition = "2021"
publish = false

[dependencies]
anyhow = "1"
clap = "2"
env_logger = "0.9"
futures = "0.3"
log = "0.4"
md-5 = "0.10"
openssl = "0.10"
sqlparser = "0.63"
tokio = { version = "1", features = ["rt-multi-thread", "net", "io-util", "sync", "macros"] }
tokio-openssl = "0.6"
tokio-postgres = "0.7"
