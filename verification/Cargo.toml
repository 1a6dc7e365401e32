[package]
name = "rove_plugins"
version = "0.1.0"
edition = "2021"
publish = false

[dependencies]
serde_json = "1"
serde = { version = "1", features = ["derive"] }
anyhow = "1"
async-trait = "0.1"
futures = "0.3"
tokio = { version = "1", features = ["rt", "rt-multi-thread", "macros", "time", "net", "sync", "process"] }
tokio-tungstenite = "0.26"
reqwest = { version = "0.12", default-features = false, features = ["json"] }
tracing = "0.1"
extism-pdk = "1"
