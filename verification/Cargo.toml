[package]
name = "crosspost"
version = "0.1.0"
edition = "2021"
publish = false

[dependencies]
anyhow = "*"
chrono = "*"
clap = { version = "*", features = ["derive"] }
directories = "*"
dotenvy = "*"
futures = "*"
html-escape = "*"
linkify = "*"
nostr-sdk = "*"
reqwest = { version = "*", default-features = false, features = ["json", "rustls-tls"] }
scraper = "*"
serde = { version = "*", features = ["derive"] }
serde_json = "*"
tokio = { version = "*", features = ["macros", "rt-multi-thread", "io-util", "io-std", "time"] }
url = "*"
