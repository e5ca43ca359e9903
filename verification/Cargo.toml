[package]
name = "bytes-radar"
version = "1.0.0"
edition = "2021"
publish = false

[dependencies]
flate2 = "1"
tar = "0.4"
serde = { version = "1", features = ["derive"] }
serde_json = "1"
serde_yaml = "0.9"
toml = "0.8"
thiserror = "1"
reqwest = { version = "0.12", default-features = false, features = ["stream", "json", "rustls-tls"] }
tokio = { version = "1", features = ["rt", "macros", "sync"] }
futures-util = "0.3"
bytes = "1"
async-trait = "0.1"
once_cell = "1"
clap = { version = "4", features = ["derive"] }
colored = "2"
indicatif = "0.17"
env_logger = "0.11"
log = "0.4"
