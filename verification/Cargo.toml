[package]
name = "firecracker_sdk"
version = "0.1.0"
edition = "2021"
publish = false

[dependencies]
async-trait = "=0.1.92"
getrandom = "=0.4.3"
ipnet = { version = "=2.12.2", features = ["serde"] }
serde = { version = "=1.0.229", features = ["derive"] }
serde_json = "=1.0.154"
thiserror = "=2.0.21"
tokio = { version = "=1.54.1", features = ["rt", "net", "io-util", "time", "process", "fs", "macros", "sync"] }
tracing = "=0.1.44"
uuid = { version = "=1.29.0", features = ["v4"] }
