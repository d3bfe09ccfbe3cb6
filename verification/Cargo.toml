[package]
name = "yugabyte"
version = "0.1.0"
edition = "2021"
publish = false

[dependencies]
uuid = { version = "1", features = ["v4"] }
chrono = "0.4"
actix-web = "4"
serde = { version = "1", features = ["derive"] }
dotenv = "0.15"
tracing-subscriber = { version = "0.3", features = ["env-filter"] }
