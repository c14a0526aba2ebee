[package]
name = "apm_memory"
version = "0.1.0"
edition = "2021"
publish = false

[dependencies]
md-5 = "0.10"
rusqlite = { version = "*", features = ["bundled"] }
chrono = "*"
dirs = "*"
serde = { version = "1", features = ["derive"] }
serde_json = "1"
