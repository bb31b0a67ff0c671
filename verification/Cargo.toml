[package]
name = "scraper_lib"
version = "0.1.0"
edition = "2021"
publish = false

[dependencies]
url = "*"
scraper = "*"
reqwest = { version = "*", default-features = false, features = ["cookies"] }
tokio = { version = "*", features = ["macros", "rt-multi-thread", "net", "io-util", "fs", "sync"] }
clap = { version = "*", features = ["derive"] }
anyhow = "*"
log = "*"
env_logger = "*"
