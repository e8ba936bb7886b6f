[package]
name = "xray_manager"
version = "0.1.0"
edition = "2021"
publish = false

[dependencies]
anyhow = "=1.0.104"
base64 = "=0.22.1"
blake3 = { version = "=1.8.7", features = ["pure"] }
clap = { version = "=4.6.7", features = ["derive"] }
clap_complete = "=4.6.11"
crossterm = "=0.29.0"
fs2 = "=0.4.3"
futures-util = { version = "=0.3.34", default-features = false }
nix = { version = "=0.31.3", features = ["fs", "mount", "process", "sched", "signal", "user"] }
percent-encoding = "=2.3.2"
ratatui = "=0.30.2"
reqwest = { version = "=0.12.28", default-features = false, features = ["rustls-tls", "socks", "stream"] }
rpassword = "=7.5.4"
secrecy = "=0.10.3"
serde = { version = "=1.0.229", features = ["derive"] }
serde_json = "=1.0.154"
tempfile = "=3.27.0"
tokio = { version = "=1.54.1", features = ["fs", "io-util", "macros", "net", "process", "rt-multi-thread", "sync", "time"] }
toml = "=1.1.8"
tracing = "=0.1.44"
tracing-subscriber = { version = "=0.3.23", features = ["env-filter"] }
url = "=2.5.8"
uuid = "=1.29.0"
zip = { version = "=9.2.2", default-features = false, features = ["deflate"] }
