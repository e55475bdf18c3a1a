[package]
name = "kkcrypto"
version = "0.1.0"
edition = "2021"
publish = false

[dependencies]
uuid = { version = "*", features = ["v4"] }
tokio = { version = "*", features = ["rt-multi-thread", "macros", "sync", "time"] }
tokio-tungstenite = "*"
futures-util = "*"
serde = { version = "*", features = ["derive"] }
serde_json = "*"
async-trait = "*"
anyhow = "*"
chrono = "*"
clap = { version = "*", features = ["derive"] }
dotenv = "*"
tracing = "*"
tracing-subscriber = { version = "*", features = ["env-filter"] }
