[package]
name = "lazyifconfig"
version = "0.1.0"
edition = "2021"
publish = false

[dependencies]
chrono = "*"
crossterm = "*"
petgraph = "*"
ratatui = "*"
rustls = { version = "*", default-features = false, features = ["ring", "std", "tls12"] }
serde = { version = "*", features = ["derive"] }
serde_json = "*"
tokio = { version = "*", features = ["full"] }
webpki-roots = "*"
x509-parser = "*"
