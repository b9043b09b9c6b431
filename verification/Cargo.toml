[package]
name = "srp_portal"
version = "0.1.0"
edition = "2021"
publish = false

[dependencies]
rand = "0.9"
serde = { version = "1", features = ["derive"] }
serde_json = "1"
axum = "0.7"
tokio = { version = "1", features = ["rt", "net", "macros"] }
tower = { version = "0.4", features = ["util"] }
tower-http = { version = "0.5", features = ["compression-gzip", "cors", "fs"] }
rusqlite = { version = "0.31", features = ["bundled"] }
chrono = "0.4"
dotenv = "0.15"
