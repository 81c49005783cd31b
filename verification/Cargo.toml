[package]
name = "chat"
version = "0.1.0"
edition = "2021"
publish = false

[dependencies]
bincode = "2"
bytes = "1"
dashmap = "6"
tokio = { version = "1", features = ["full"] }
tokio-util = { version = "0.7", features = ["codec"] }
futures = "0.3"
serde = { version = "1", features = ["derive"] }
csv = "1"
thiserror = "1"
ratatui = "0.29"
crossterm = "0.28"
