[package]
name = "backlog_sync"
version = "0.1.0"
edition = "2021"
publish = false

[dependencies]
urlencoding = "*"
chrono = "*"
reqwest = { version = "*", default-features = false, features = ["blocking", "json"] }
rusqlite = { version = "*", features = ["bundled"] }
keyring = "*"
serde = { version = "*", features = ["derive"] }
serde_json = "*"
directories = "*"
