[package]
name = "matrix-notify"
version = "0.1.0"
edition = "2021"
publish = false

[dependencies]
anyhow = "=1.0.104"
base64 = "=0.22.1"
chacha20poly1305 = "=0.10.1"
clap = { version = "=4.6.7", default-features = false, features = ["std", "derive", "env", "help", "usage", "error-context"] }
crypto_box = { version = "=0.9.1", features = ["seal"] }
flate2 = "=1.1.10"
getrandom = "=0.2.17"
hex = "=0.4.3"
hkdf = "=0.12.4"
matrix-sdk = { version = "=0.13.0", default-features = false, features = ["e2e-encryption", "sqlite", "bundled-sqlite", "rustls-tls"] }
percent-encoding = "=2.3.2"
pulldown-cmark = { version = "=0.13.6", default-features = false, features = ["html"] }
reqwest = { version = "=0.12.28", default-features = false, features = ["json", "rustls-tls"] }
rusqlite = { version = "=0.35.0", default-features = false, features = ["bundled"] }
serde = { version = "=1.0.229", features = ["derive"] }
serde_json = "=1.0.154"
sha2 = "=0.10.9"
tar = { version = "=0.4.46", default-features = false }
thiserror = "=2.0.21"
tokio = { version = "=1.54.1", default-features = false, features = ["rt-multi-thread", "time"] }
tracing = { version = "=0.1.44", default-features = false }
tracing-subscriber = { version = "=0.3.23", features = ["env-filter"] }
url = "=2.5.8"
zeroize = "=1.9.1"
