[package]
name = "mcscan"
version = "0.1.0"
edition = "2021"
publish = false

[dependencies]
async-minecraft-ping = "*"
futures = "0.3"
serde = { version = "1", features = ["derive"] }
serde_json = "1"
tokio = { version = "1", features = ["rt-multi-thread", "macros", "time"] }
uuid = "1"
