[package]
name = "product_events"
version = "0.1.0"
edition = "2021"
publish = false

[dependencies]
uuid = { version = "1", features = ["v4"] }
serde = { version = "1", features = ["derive"] }
serde_json = "1"
tokio = { version = "1", features = ["sync", "macros", "rt-multi-thread"] }
actix-web = { version = "4", default-features = false, features = ["macros"] }
rdkafka = "0.36"
