[package]
name = "plane"
version = "0.4.0"
edition = "2021"
publish = false

[dependencies]
async-stream = "0.3"
chrono = { version = "0.4", default-features = false, features = ["std", "clock", "serde"] }
futures-util = "0.3"
rand = "0.8"
serde = { version = "1", features = ["derive"] }
serde_json = "1"
sqlx = { version = "0.7", default-features = false, features = ["runtime-tokio", "postgres", "chrono", "json"] }
tokio = { version = "1", features = ["rt", "sync", "time", "macros"] }
tracing = "0.1"
url = "2"
