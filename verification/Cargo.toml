[package]
name = "cuckoo"
version = "0.1.0"
edition = "2021"
publish = false

[dependencies]
dashmap = "=6.2.1"
regex = "=1.13.1"
ulid = "=1.2.1"
chrono = "=0.4.45"
base64 = "=0.22.1"
tokio = { version = "=1.54.1", features = ["full"] }
serde = { version = "=1.0.229", features = ["derive"] }
serde_json = "=1.0.154"
parking_lot = "=0.12.5"
dirs = "=7.0.0"
rcgen = "=0.13.2"
rustls = { version = "=0.23.46", default-features = false, features = ["ring", "std", "tls12", "logging"] }
tokio-rustls = { version = "=0.26.6", default-features = false, features = ["ring", "tls12", "logging"] }
rustls-pemfile = "=2.2.0"
rustls-native-certs = "=0.8.5"
time = "=0.3.55"
thiserror = "=2.0.21"
anyhow = "=1.0.104"
tracing = "=0.1.44"
rand = "=0.10.3"
reqwest = { version = "0.12", default-features = false, features = ["rustls-tls", "json"] }
