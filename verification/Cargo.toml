[package]
name = "skycomet"
version = "0.1.0"
edition = "2021"
publish = false

[dependencies]
chrono = "0.4"
serde = { version = "1", features = ["derive"] }
serde_json = "1"
sgp4 = "2"
thiserror = "1"
rusqlite = { version = "0.31", features = ["bundled"] }
