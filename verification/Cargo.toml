[package]
name = "yt_chill"
version = "0.1.0"
edition = "2021"
publish = false

[dependencies]
anyhow = "1"
chrono = "0.4"
clap = { version = "4", features = ["derive"] }
colored = "*"
dialoguer = "*"
dirs = "*"
html-escape = "0.2"
indicatif = "*"
reqwest = { version = "0.12", default-features = false, features = ["rustls-tls"] }
serde = { version = "1", features = ["derive"] }
serde_json = "1"
sha2 = "0.10"
thiserror = "*"
tokio = { version = "1", features = ["macros", "rt-multi-thread", "fs", "process", "time"] }
urlencoding = "2"
