[package]
name = "calpersonal"
version = "0.1.0"
edition = "2021"
publish = false

[dependencies]
chrono = "0.4"
crossterm = "0.28"
dirs = "5"
google-calendar3 = "6"
google-tasks1 = "6"
hyper-rustls = "0.27"
hyper-util = "0.1"
ratatui = "0.29"
reqwest = { version = "0.12", features = ["json"] }
rustls = "0.23"
serde = { version = "1", features = ["derive"] }
serde_json = "1"
tokio = { version = "1", features = ["full"] }
toml = "0.8"
urlencoding = "2"

[dev-dependencies]
regex = "1"
