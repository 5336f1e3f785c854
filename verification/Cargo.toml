[package]
name = "dungeon"
version = "0.1.0"
edition = "2021"
rust-version = "1.95"
publish = false

[dependencies]
base64 = "0.22"
chrono = "0.4"
futures = "0.3"
http = "1"
log = "0.4"
r2d2 = "0.8"
r2d2_sqlite = { version = "0.35.0", features = ["bundled"] }
rand = "0.8"
reqwest = { version = "0.12", default-features = false, features = ["json", "rustls-tls"] }
rig-agent = "0.41"
rig-core = "0.41"
rig-memory = "0.41"
rusqlite = "0.40.2"
schemars = "1"
serde = { version = "1", features = ["derive"] }
serde_json = "1"
tokio = { version = "1", features = ["sync", "time", "rt"] }
uuid = { version = "1", features = ["v4"] }
