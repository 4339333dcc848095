[package]
name = "starla"
version = "0.3.0"
edition = "2021"
publish = false

[dependencies]
serde = { version = "=1.0.229", features = ["derive"] }
serde_json = "=1.0.154"
base64 = "=0.22.1"
sha2 = "=0.10.9"
rand = "=0.10.3"
chrono = "=0.4.45"
hickory-proto = "=0.26.3"
pnet = "=0.35.0"
toml = "=1.1.8"
tokio = { version = "=1.54.1", features = ["full"] }
hostname = "=0.4.2"
libc = "=0.2.191"
russh = "*"
