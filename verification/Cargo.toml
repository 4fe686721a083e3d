[package]
name = "vessel"
version = "0.1.0"
edition = "2021"
publish = false

[dependencies]
globset = "=0.4.21"
tokio-util = "=0.7.20"
tokio = { version = "=1.54.1", features = ["rt", "rt-multi-thread", "sync"] }
uuid = { version = "=1.29.0", features = ["v4"] }
chrono = "=0.4.45"
serde = { version = "=1.0.229", features = ["derive"] }
serde_json = "=1.0.154"
rusqlite = { version = "=0.41.1", features = ["bundled"] }
walkdir = "=2.5.0"
pdf-extract = "=0.12.1"
anyhow = "=1.0.104"
log = "=0.4.35"
env_logger = "=0.11.11"
open = "=5.4.5"
windows = { version = "0.58", features = ["Win32_Foundation", "Win32_UI_Shell", "Win32_UI_WindowsAndMessaging"] }
