[package]
name = "proxy_cache"
version = "0.1.0"
edition = "2021"
publish = false

[dependencies]
anyhow = "1"
axum = "0.8"
axum-extra = { version = "0.10", features = ["typed-header"] }
clap = { version = "4", features = ["cargo"] }
env_logger = "0.11"
kstool-helper-generator = "*"
log = "0.4"
moka = { version = "0.12", features = ["future"] }
reqwest = "0.12"
rusty-leveldb = "*"
serde = { version = "1", features = ["derive"] }
serde_json = "1"
tokio = { version = "1", features = ["full"] }
toml = "0.8"
xxhash-rust = { version = "0.8", features = ["xxh3"] }
