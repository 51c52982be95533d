[package]
name = "proxyster"
version = "0.1.0"
edition = "2021"
publish = false

[dependencies]
regex = "1"
scraper = "*"
select = "*"
toml = "*"
serde = "1"
serde_derive = "1"
clap = "4"
crossterm = "*"
futures = "0.3"
reqwest = { version = "0.12", default-features = false, features = ["rustls-tls"] }
tokio = { version = "1", features = ["macros", "rt-multi-thread", "net"] }
tokio-tungstenite = "*"
url = "2"
dirs = "*"
