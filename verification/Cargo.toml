[package]
name = "hbbs"
version = "0.1.0"
edition = "2021"
publish = false

[dependencies]
async-speed-limit = "=0.4.2"
async-trait = "0.1"
base64 = "=0.13.1"
bytes = "1"
chrono = "=0.4.45"
dashmap = "=6.2.1"
deadpool = "=0.8.2"
futures-util = { version = "0.3", features = ["sink"] }
jsonwebtoken = "=8.3.0"
lazy_static = "1"
log = "0.4"
once_cell = "1"
serde = { version = "1", features = ["derive"] }
serde_json = { version = "=1.0.154", features = ["preserve_order", "raw_value"] }
sodiumoxide = "=0.2.7"
sqlx = { version = "=0.6.3", default-features = false, features = ["runtime-tokio-rustls", "sqlite"] }
tokio = { version = "1", features = ["full"] }
tokio-tungstenite = "0.17"
tungstenite = "0.17"
uuid = { version = "=1.29.0", features = ["v4"] }
