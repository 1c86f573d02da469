[package]
name = "polaris"
version = "0.1.0"
edition = "2021"
publish = false

[dependencies]
ropey = "1.6"
unicode-segmentation = "1.11"
similar = "2"
sha2 = "0.10"
zstd = "0.13"
serde = { version = "1", features = ["derive"] }
serde_json = "1"
toml = "0.8"
chrono = "0.4"
pulldown-cmark = "0.12"
base64 = "0.22"
anyhow = "1"
dirs = "5"
clap = { version = "4", features = ["derive"] }
tokio = { version = "1", features = ["rt-multi-thread", "macros"] }
reqwest = { version = "0.12", default-features = false, features = ["json", "rustls-tls"] }
crossterm = "0.27"
ratatui = "0.26"
arboard = { version = "3", default-features = false }
async-trait = "0.1"
