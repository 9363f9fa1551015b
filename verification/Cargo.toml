[package]
name = "prisma_value"
version = "0.1.0"
edition = "2021"
publish = false

[dependencies]
serde = { version = "=1.0.229", features = ["derive"] }
serde_json = "=1.0.151"
indexmap = { version = "=2.14.2", features = ["serde"] }
bigdecimal = "=0.4.11"
chrono = { version = "=0.4.45", features = ["serde"] }
uuid = { version = "=1.27.0", features = ["serde"] }
