[package]
name = "legion"
version = "0.1.0"
edition = "2021"
publish = false

[dependencies]
regex = "=1.13.1"
globset = "=0.4.21"
reqwest = { version = "=0.12.28", default-features = false, features = ["json", "stream", "rustls-tls"] }
sha2 = "=0.10.9"
serde = { version = "=1.0.229", features = ["derive"] }
serde_json = "=1.0.154"
tokio = { version = "=1.54.1", features = ["full"] }
tokio-util = "=0.7.20"
futures-util = "=0.3.34"
async-trait = "=0.1.92"
rusqlite = { version = "=0.32.1", features = ["bundled"] }
tar = "=0.4.46"
zstd = "=0.13.4"
