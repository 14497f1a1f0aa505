[package]
name = "nodecosmos"
version = "0.1.0"
edition = "2021"
publish = false

[dependencies]
base64 = "0.22"
yrs = "*"
ammonia = "*"
serde = { version = "1", features = ["derive"] }
uuid = "1"
chrono = "0.4"
