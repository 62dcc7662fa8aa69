[package]
name = "arc700"
version = "0.1.0"
edition = "2021"
publish = false

[dependencies]
axum = "0.8"
parking_lot = "0.12"
rmcp = { version = "*", features = ["server", "macros", "transport-streamable-http-server"] }
schemars = "1"
serde = { version = "1", features = ["derive"] }
serde_json = "1"
tokio = { version = "1", features = ["rt-multi-thread", "net", "time", "sync", "macros"] }
