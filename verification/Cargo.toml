[package]
name = "squeuelite"
version = "0.1.0"
edition = "2021"
publish = false

[dependencies]
axum = "=0.8.9"
base64 = "=0.22.1"
rusqlite = { version = "=0.41.1", features = ["bundled"] }
serde = { version = "=1.0.229", features = ["derive"] }
serde_json = { version = "=1.0.154", features = ["preserve_order"] }
thiserror = "=2.0.21"
tokio = { version = "=1.54.1", features = ["rt-multi-thread", "macros", "net", "io-util", "sync", "time", "signal"] }
uuid = { version = "=1.29.0", features = ["v7"] }
