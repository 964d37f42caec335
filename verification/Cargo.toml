[package]
name = "rbd"
version = "0.1.0"
edition = "2021"
publish = false

[dependencies]
md-5 = "=0.10.6"
sha1 = "=0.10.7"
percent-encoding = "=2.3.2"
url = "=2.5.8"
chrono = "=0.4.45"
urlencoding = "=2.1.3"
serde = { version = "=1.0.229", features = ["derive"] }
serde_json = "=1.0.154"
anyhow = "=1.0.104"
toml = "=0.8.23"
tera = { version = "=1.20.1", default-features = false }
quick-xml = "=0.37.5"
prost = "=0.13.5"
reqwest = { version = "=0.12.28", default-features = false, features = ["json", "cookies", "rustls-tls"] }
tokio = { version = "=1.54.1", features = ["rt-multi-thread", "macros", "time", "fs", "sync"] }
clap = { version = "=4.6.7", features = ["derive"] }
clap_complete = "=4.6.11"
dirs = "=5.0.1"
keyring = "=3.6.3"
rand = "=0.8.8"
tracing = "=0.1.44"
tracing-subscriber = { version = "=0.3.23", features = ["env-filter", "fmt"] }
tracing-appender = "=0.2.5"
indicatif = "=0.17.11"
dialoguer = { version = "=0.11.0", default-features = false }
qrcode = { version = "=0.14.1", default-features = false }
governor = "=0.6.3"
backoff = { version = "=0.4.0", features = ["tokio"] }
rayon = "=1.12.0"
rustc-hash = "=2.1.3"
