[package]
name = "atrium"
version = "0.1.0"
edition = "2021"
publish = false

[dependencies]
anyhow = "1"
axum = { version = "0.6", features = ["headers"] }
axum-extra = { version = "0.7", features = ["cookie-private"] }
axum-server = "0.5"
base64ct = { version = "1", features = ["alloc"] }
http = "0.2"
hyper = { version = "0.14", features = ["full"] }
hyper-trust-dns = "0.5"
serde = { version = "1", features = ["derive"] }
serde_json = "1"
serde_yaml = "0.9"
time = "0.3"
tokio = { version = "1", features = ["full"] }
tower = { version = "0.4", features = ["util"] }
tower-http = { version = "0.4", features = ["fs"] }
