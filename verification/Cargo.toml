[package]
name = "admin-api"
version = "0.1.0"
edition = "2021"
publish = false

[dependencies]
serde = { version = "1", features = ["derive"] }
serde_json = "1"
serde_yaml = "0.9"
chrono = "0.4"
uuid = { version = "1", features = ["v7"] }
hmac = "0.12"
sha2 = "0.10"
hex = "0.4"
redis = { version = "*", features = ["tokio-comp", "connection-manager"] }
reqwest = { version = "*", default-features = false, features = ["blocking"] }
tokio = { version = "1", features = ["rt-multi-thread", "macros"] }
captcha = "*"
