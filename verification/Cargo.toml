[package]
name = "pulsenet"
version = "0.1.0"
edition = "2021"
publish = false

[dependencies]
serde_json = "1"
serde = { version = "1", features = ["derive"] }
tokio = { version = "1", features = ["net", "time", "rt-multi-thread"] }
reqwest = { version = "0.11", features = ["json"] }
trust-dns-resolver = "0.23"
surge-ping = "0.8"
auto-launch = "0.5"
