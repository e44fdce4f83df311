[package]
name = "sapphire_journal"
version = "0.1.0"
edition = "2021"
publish = false

[dependencies]
chrono = "=0.4.45"
grain-id = "=0.17.0"
caretta-id = "=0.12.2"
uuid = { version = "=1.29.0", features = ["v4"] }
serde = { version = "=1.0.229", features = ["derive"] }
serde_yaml = "=0.9.34"
serde_json = "=1.0.154"
toml = "=1.1.8"
indexmap = "=2.14.2"
clap = { version = "=4.6.7", features = ["derive"] }
anyhow = "=1.0.104"
thiserror = "=2.0.21"
dirs = "=7.0.0"
rusqlite = { version = "*", features = ["bundled"] }
