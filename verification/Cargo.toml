[package]
name = "zenet"
version = "0.1.0"
edition = "2021"
publish = false

[dependencies]
anyhow = "*"
bytes = "1"
dashmap = "*"
futures = "*"
hmac = "*"
quinn = "*"
rand = "*"
secrecy = "*"
sha2 = "*"
subtle = "*"
tokio = { version = "*", features = ["rt", "time", "io-util", "sync", "macros"] }
tokio-util = { version = "*", features = ["codec"] }
tracing = "*"
