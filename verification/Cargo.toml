[package]
name = "artifact-trust"
version = "0.1.0"
edition = "2021"
publish = false

[dependencies]
aws-lc-rs = "=1.19.0"
base64 = "=0.22.1"
futures-core = "=0.3.34"
reqwest = { version = "=0.12.28", default-features = false, features = ["stream", "rustls-tls-webpki-roots-no-provider"] }
serde = { version = "=1.0.229", features = ["derive"] }
serde_json = "=1.0.154"
thiserror = "=2.0.21"
tough = "=0.24.0"
url = "=2.5.8"
x509-cert = "=0.2.5"
