[package]
name = "converter"
version = "0.1.0"
edition = "2021"
publish = false

[dependencies]
axum = { version = "0.8", features = ["macros"] }
clap = "4"
const_format = "0.2"
http-body-util = "0.1"
hyper = { version = "1", features = ["full"] }
hyper-rustls = { version = "0.27", features = ["http2"] }
hyper-util = { version = "0.1", features = ["full"] }
openssl = "0.10"
prost = "0.13"
rustls = "0.23"
serde = { version = "1", features = ["derive"] }
serde_json = "1"
serde_yaml = "0.9"
tokio = { version = "1", features = ["full"] }
tokio-openssl = "0.6"
tokio-rustls = "0.26"
tokio-stream = "0.1"
tonic = "0.13"
tower = { version = "0.5", features = ["full"] }
tracing = "0.1"
tracing-subscriber = "0.3"
x509-parser = "0.17"
