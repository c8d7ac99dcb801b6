[package]
name = "tvgrep"
version = "0.1.0"
edition = "2021"
publish = false

[dependencies]
ahash = { version = "=0.8.12", features = ["serde"] }
anyhow = "=1.0.104"
camino = { version = "=1.2.6", features = ["serde1"] }
clap = { version = "=4.6.7", features = ["derive"] }
console = "=0.16.6"
crossterm = { version = "=0.29.0", features = ["event-stream"] }
dialoguer = "=0.12.0"
dirs = "=7.0.0"
ego-tree = "=0.11.1"
enum-fun = "=0.1.6"
futures = "=0.3.34"
indexmap = { version = "=2.14.2", features = ["serde"] }
indicatif = "=0.18.6"
kstring = { version = "=2.0.2", features = ["serde"] }
parking_lot = "=0.12.5"
ratatui = "=0.30.2"
reqwest = { version = "=0.13.5", default-features = false }
scraper = "=0.29.0"
serde = { version = "=1.0.229", features = ["derive"] }
serde_json = "=1.0.154"
sqlx = { version = "=0.8.6", default-features = false, features = ["sqlite", "runtime-tokio"] }
tokio = { version = "=1.54.1", features = ["full"] }
tracing = "=0.1.44"
