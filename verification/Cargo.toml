[package]
name = "escalon"
version = "0.1.0"
edition = "2021"
publish = false

[dependencies]
chrono = "0.4"
tokio = { version = "1", features = ["rt-multi-thread", "macros", "net", "sync", "time", "signal"] }
serde = { version = "1", features = ["derive"] }
serde_json = "1"
local-ip-address = "*"
anyhow = "1"
rand = "0.8"
async-trait = "0.1"
