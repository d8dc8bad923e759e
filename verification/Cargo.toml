[package]
name = "remote_tail"
version = "0.1.0"
edition = "2021"
publish = false

[dependencies]
env_logger = "0.11"
lazy_static = "1"
log = "0.4"
serde = { version = "1", features = ["derive"] }
serde_json = "1"
ssh2 = "0.9"
tauri = { version = "2", default-features = false }
tokio = { version = "1", features = ["rt", "rt-multi-thread"] }
