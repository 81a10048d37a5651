[package]
name = "market_feed"
version = "0.1.0"
edition = "2021"
publish = false

[dependencies]
bson = "2"
chrono = { version = "0.4", default-features = false, features = ["std"] }
csv = "1"
mongodb = "2"
serde = { version = "1", features = ["derive"] }
tokio = { version = "1", features = ["macros", "rt-multi-thread"] }
