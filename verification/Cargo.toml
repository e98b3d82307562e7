[package]
name = "koid"
version = "0.1.0"
edition = "2021"
publish = false

[dependencies]
keyring = { version = "=3.6.3", features = ["apple-native", "windows-native", "sync-secret-service", "crypto-rust", "vendored"] }
serde_yml = "=0.0.13"
sha2 = "=0.10.9"
aes-gcm = "=0.10.3"
getrandom = "=0.3.4"
regex = "=1.13.1"
serde = { version = "=1.0.229", features = ["derive"] }
serde_json = "=1.0.154"
rusqlite = { version = "=0.41.1", features = ["bundled", "backup"] }
reqwest = { version = "=0.12.28", default-features = false, features = ["json", "stream", "rustls-tls", "socks"] }
tokio = { version = "=1.54.1", features = ["rt-multi-thread", "macros", "time", "process", "io-util", "sync"] }
futures-util = "=0.3.34"
zip = { version = "=9.2.2", default-features = false, features = ["deflate"] }
