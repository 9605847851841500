[package]
name = "mastotg"
version = "0.1.0"
edition = "2021"
publish = false

[dependencies]
anyhow = "=1.0.104"
async-trait = "=0.1.92"
chrono = "=0.4.45"
clap = { version = "=4.6.7", features = ["derive"] }
env_logger = "=0.10.2"
lazy_static = "=1.5.1"
log = "=0.4.34"
quick-xml = "=0.31.0"
refinery = { version = "=0.8.16", features = ["rusqlite"] }
reqwest = { version = "=0.11.27", features = ["json", "blocking"] }
rss = "=2.1.2"
rusqlite = "=0.29.0"
serde = { version = "=1.0.229", features = ["derive"] }
serde_json = "=1.0.154"
serde_with = "=3.24.0"
takecell = "=0.1.1"
teloxide = "=0.12.2"
tokio = { version = "=1.54.1", features = ["full"] }
url = "=2.5.8"

[dev-dependencies]
regex = "=1.13.1"
