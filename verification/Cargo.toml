[package]
name = "menhera_ddns"
version = "0.1.0"
edition = "2021"
publish = false

[dependencies]
axum = "=0.8.9"
base32 = "=0.5.1"
base64 = "=0.22.1"
fqdn = "=0.5.2"
futures-util = "=0.3.34"
hex = "=0.4.3"
hickory-client = { version = "=0.25.2", features = ["dnssec-ring"] }
hmac = "=0.13.0"
rand = "=0.10.3"
serde_json = "=1.0.154"
sha2 = "=0.11.1"
tokio = { version = "=1.54.1", features = ["full"] }
