[package]
name = "mytunnel"
version = "0.1.0"
edition = "2021"
publish = false

[dependencies]
anyhow = "1"
bytes = "1"
clap = { version = "4", features = ["derive"] }
crossbeam = "0.8"
dashmap = "6"
libc = "0.2"
metrics = "*"
metrics-exporter-prometheus = "*"
nix = { version = "0.29", features = ["fs", "socket", "net", "feature", "uio", "zerocopy"] }
num_cpus = "1"
parking_lot = "0.12"
quinn = "0.11"
rcgen = "0.13"
rustls = { version = "0.23", default-features = false, features = ["ring", "std", "logging", "tls12"] }
rustls-pemfile = "2"
serde = { version = "1", features = ["derive"] }
serde_json = "1"
socket2 = "0.5"
tokio = { version = "1", features = ["full"] }
toml = "*"
tracing = "0.1"
tracing-subscriber = { version = "0.3", features = ["env-filter", "json"] }
webpki-roots = "*"
