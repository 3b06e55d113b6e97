[package]
name = "mavrik"
version = "0.1.0"
edition = "2021"
publish = false

[dependencies]
anyhow = "1"
log = { version = "0.4", features = ["kv"] }
serde = { version = "1", features = ["derive"] }
serde_json = "1"
tokio = { version = "1", default-features = false, features = ["io-util", "macros", "net", "rt"] }
