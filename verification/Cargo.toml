[package]
name = "rclone_ui"
version = "0.1.0"
edition = "2021"
publish = false

[dependencies]
serde_json = "1"
which = "6"
dirs = "5"
zip = { version = "0.6", default-features = false, features = ["deflate"] }
log = "0.4"
env_logger = { version = "0.10", default-features = false }
tokio = { version = "1", features = ["rt-multi-thread"] }
reqwest = { version = "0.11", default-features = false, features = ["json", "rustls-tls"] }

[dev-dependencies]
tempfile = "3"
