[package]
name = "smb-server"
version = "0.1.0"
edition = "2021"
publish = false

[dependencies]
tokio = { version = "1", default-features = false, features = ["io-util", "macros", "net", "rt", "sync"] }
tracing = "0.1"
