[package]
name = "oss_sdk"
version = "0.1.0"
edition = "2021"
publish = false

[dependencies]
rust-crypto = "=0.2.36"
base64 = "=0.13.1"
chrono = "=0.4.45"
hyper = { version = "=0.14.32", features = ["client", "http1", "tcp", "stream"] }
tokio = { version = "=1.53.2", features = ["rt-multi-thread", "io-util"] }
futures = "=0.3.34"
bytes = "=1.12.1"
url = "=2.5.8"
http = "=0.2.12"
async-trait = "=0.1.92"
pin-project = "=1.1.13"
