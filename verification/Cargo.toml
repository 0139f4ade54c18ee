[package]
name = "backlog-mcp"
version = "0.1.0"
edition = "2021"
publish = false

[dependencies]
anyhow = "*"
base64 = "*"
chrono = "*"
clap = { version = "*", features = ["derive"] }
dashmap = "*"
rmcp = { version = "*", features = ["server", "macros"] }
serde = { version = "*", features = ["derive"] }
serde_json = "*"
thiserror = "*"
tokio = { version = "*", features = ["sync", "rt", "macros", "fs", "time"] }
