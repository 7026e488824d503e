[package]
name = "http_tunnel"
version = "0.1.0"
edition = "2021"
publish = false

[dependencies]
data-encoding = "2"
url = "2"
clap = { version = "4", features = ["cargo"] }
env_logger = "*"
log = "0.4"
futures = "0.3"
thiserror = "1"
tokio = { version = "1", features = ["net", "rt", "rt-multi-thread", "io-util"] }
