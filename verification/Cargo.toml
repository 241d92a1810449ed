[package]
name = "freemdu_home"
version = "0.1.0"
edition = "2021"
publish = false

[dependencies]
anyhow = "=1.0.104"
clap = { version = "=4.6.7", features = ["derive"] }
embassy-sync = "0.7"
embedded-storage = "=0.3.2"
env_logger = "=0.11.11"
futures = "=0.3.34"
log = "=0.4.35"
mcutie = { version = "=0.4.0", features = ["homeassistant"] }
ratatui = "=0.30.2"
tokio = { version = "=1.54.1", features = ["io-util", "macros", "net", "rt", "sync", "time"] }

[dev-dependencies]
esp-idf-part = "=0.6.0"
