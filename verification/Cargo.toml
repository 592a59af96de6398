[package]
name = "rust_rss_reader"
version = "0.1.0"
edition = "2021"
publish = false

[dependencies]
aes-gcm = "=0.10.3"
rand_core = { version = "=0.6.4", features = ["getrandom"] }
data-encoding = "=2.11.1"
uuid = { version = "=1.29.0", features = ["v4"] }
html-escape = "=0.2.15"
chrono = "=0.4.45"
chrono-tz = "=0.10.4"
ammonia = "=4.2.4"
html2text = "=0.17.4"
url = "=2.5.8"
roxmltree = "=0.21.2"
rss = "=2.1.2"
regex = "=1.13.1"
encoding_rs = "=0.8.44"
flate2 = "=1.1.10"
serde = { version = "=1.0.229", features = ["derive"] }
serde_json = "=1.0.154"
tokio = { version = "=1.54.1", features = ["rt-multi-thread", "macros", "fs", "time", "sync"] }
reqwest = { version = "=0.12.28", default-features = false, features = ["rustls-tls", "json", "stream"] }
futures = "=0.3.34"
dirs = "=7.0.0"
log = "=0.4.35"
anyhow = "=1.0.104"
opml = "=1.1.6"
rand = "=0.8.8"
env_logger = "=0.11.11"
