[package]
name = "claude_executor"
version = "0.1.0"
edition = "2021"
publish = false

[dependencies]
aigw = "*"
aigw-core = "*"
async-trait = "0.1"
bon = "3"
bytes = "1"
futures-util = "0.3"
http = "1"
reqwest = { version = "0.12", default-features = false, features = ["json", "stream"] }
secrecy = "0.10"
serde_json = "1"
tracing = "0.1"
uuid = { version = "1", features = ["v4", "v5"] }
