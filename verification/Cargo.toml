[package]
name = "tls_outputter"
version = "0.1.0"
edition = "2021"
publish = false

[dependencies]
anyhow = "1"
asn1-rs = "0.6"
chrono = "0.4"
ring = "0.17"
rustls = { version = "0.23", default-features = false, features = ["ring", "std", "logging", "tls12"] }
rustls-native-certs = "0.7"
serde = { version = "1", features = ["derive"] }
serde_json = "1"
thiserror = "1"
tokio = { version = "1", features = ["rt-multi-thread", "macros"] }
tracing-subscriber = "0.3"
url = "2"
x509-parser = "0.16"
