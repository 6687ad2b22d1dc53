[package]
name = "oqto"
version = "0.1.0"
edition = "2021"
publish = false

[dependencies]
bcrypt = "=0.17.1"
nanoid = "=0.4.0"
toml = "=0.8.23"
serde = { version = "=1.0.229", features = ["derive"] }
serde_json = "=1.0.154"
dirs = "=6.0.0"
anyhow = "=1.0.104"
reqwest = { version = "=0.12.28", default-features = false }
chrono = "=0.4.45"
uuid = { version = "1", features = ["v4"] }
urlencoding = "2"
