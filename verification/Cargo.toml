[package]
name = "mail_client"
version = "0.1.0"
edition = "2021"
publish = false

[dependencies]
regex = "=1.13.1"
mail-parser = "=0.9.4"
chrono = { version = "=0.4.45", features = ["serde"] }
rusqlite = { version = "=0.41.1", features = ["bundled"] }
imap = "=2.4.1"
native-tls = "=0.2.18"
tokio = { version = "=1.54.1", features = ["full"] }
dirs = "=7.0.0"
log = "=0.4.35"
env_logger = "=0.11.11"
serde = { version = "=1.0.229", features = ["derive"] }
thiserror = "=2.0.21"
once_cell = "=1.21.4"
lazy_static = "=1.5.1"
