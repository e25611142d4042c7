[package]
name = "tuftool"
version = "0.1.0"
edition = "2021"
publish = false

[dependencies]
ring = "*"
chrono = "*"
clap = { version = "*", features = ["derive"] }
tokio = { version = "*", features = ["macros", "rt-multi-thread", "fs", "io-util", "sync"] }
serde = { version = "*", features = ["derive"] }
serde_json = "*"
simplelog = "*"
snafu = "*"
tempfile = "*"
url = "*"
walkdir = "*"
futures = "*"
rayon = "*"
