[package]
name = "case_crawler"
version = "0.1.0"
edition = "2021"
publish = false

[dependencies]
tokio = { version = "1", features = ["rt-multi-thread", "macros"] }
reqwest = { version = "*", default-features = false, features = ["json", "rustls-tls"] }
serde_json = "1"
dotenvy = "*"
tracing = "*"
tracing-subscriber = "*"
