[package]
name = "blindkopie"
version = "0.0.1"
edition = "2021"
publish = false

[dependencies]
anyhow = "=1.0.104"
base64 = "=0.13.1"
chrono = "=0.4.45"
clap = "=2.34.0"
ct-logs = "=0.8.0"
ctrlc = "=3.5.2"
futures = "=0.3.34"
hyper = { version = "=0.14.32", features = ["client", "http1", "http2", "tcp", "stream", "runtime"] }
hyper-multipart-rfc7578 = "=0.6.2"
hyper-rustls = "=0.22.1"
hyper-trust-dns-connector = "=0.3.0"
log = "=0.4.35"
memfd = "=0.4.1"
mime = "=0.3.17"
percent-encoding = "=2.3.2"
pretty_env_logger = "=0.4.0"
ron = "=0.6.6"
rustls = "=0.19.1"
rustyline = "=8.2.0"
serde = { version = "=1.0.229", features = ["derive"] }
serde_json = "=1.0.154"
serde_qs = "=0.8.5"
serde-xml-rs = "=0.4.1"
tinystr = "=0.4.12"
tokio = { version = "=1.54.1", features = ["full"] }
tokio-tungstenite = "=0.14.0"
tokio-util = { version = "=0.6.10", features = ["codec"] }
trust-dns-resolver = { version = "=0.20.4", features = ["dns-over-https-rustls"] }
url = "=2.5.8"
webpki-roots = "=0.21.1"
