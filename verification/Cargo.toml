[package]
name = "mdsnippets"
version = "0.1.0"
edition = "2021"
publish = false

[dependencies]
chrono = "=0.4.45"
dirs = "=7.0.0"
serde_json = "=1.0.151"
uuid = { version = "=1.27.0", features = ["v4"] }
