[package]
name = "mediadownloader"
version = "0.1.0"
edition = "2021"
publish = false

[dependencies]
cookie = "=0.18.2"
deadpool-redis = "=0.23.1"
futures = "=0.3.34"
rand = "=0.10.3"
reqwest = { version = "=0.13.5", default-features = false, features = ["json", "gzip", "cookies", "stream", "query"] }
scraper = "=0.27.0"
serde = { version = "=1.0.229", features = ["derive"] }
serde_json = "=1.0.151"
tokio = { version = "=1.53.2", features = ["macros", "rt-multi-thread", "time", "fs", "io-util", "process"] }
toml = "=1.1.7"
url = "=2.5.8"
uuid = { version = "=1.27.0", features = ["v4"] }
