[package]
name = "xcplane"
version = "0.1.0"
edition = "2021"
publish = false

[dependencies]
arc-swap = "1"
base64 = "0.22"
chrono = "0.4"
clap = { version = "4", features = ["derive"] }
dashmap = "6"
directories = "5"
futures-util = "0.3"
isocountry = "0.3"
nix = { version = "0.29", features = ["signal"] }
rand = "0.8"
reqwest = { version = "0.12", default-features = false, features = ["cookies", "json", "rustls-tls", "socks", "stream"] }
rustls = { version = "0.23", default-features = false, features = ["ring", "std", "tls12"] }
semver = "1"
serde = { version = "1", features = ["derive"] }
serde_json = "1"
serde_yaml = "0.9"
sha2 = "0.10"
tokio = { version = "1", features = ["full"] }
tokio-rusqlite = { version = "0.7", features = ["backup", "bundled"] }
tokio-rustls = { version = "0.26", default-features = false, features = ["ring", "tls12"] }
tokio-socks = "0.5"
tokio-util = { version = "0.7", features = ["io"] }
toml = "0.8"
toml_edit = "0.22"
tracing = "0.1"
tracing-appender = "0.2"
tracing-subscriber = { version = "0.3", features = ["chrono", "env-filter", "json"] }
url = "2"
users = "0.11"
webpki-roots = "1"
