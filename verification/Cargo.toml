[package]
name = "any_mcp"
version = "0.1.0"
edition = "2021"
publish = false

[dependencies]
chrono = "0.4"
mime = "0.3"
rmcp = { version = "*", default-features = false, features = ["server", "schemars"] }
serde = { version = "1", features = ["derive"] }
serde_json = "1"
sha2 = "0.10"
tiktoken-rs = "0.12.0"
tokio = { version = "1", features = ["rt", "sync", "time", "macros"] }
tokio-util = "0.7"
