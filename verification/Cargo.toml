[package]
name = "sigstat"
version = "0.1.0"
edition = "2021"
publish = false

[dependencies]
sha2 = "=0.11.0"
chrono = "=0.4.45"
serde = "*"
serde_json = "=1.0.151"
regex = "*"
tokio = { version = "=1.53.2", features = ["rt-multi-thread", "time", "sync", "macros"] }
reqwest = { version = "=0.13.5", default-features = false }
