[package]
name = "replay"
version = "0.1.0"
edition = "2021"
publish = false

[dependencies]
anyhow = "1"
chrono = { version = "0.4", features = ["serde"] }
clap = { version = "4", features = ["derive"] }
crossterm = "*"
dirs = "*"
portable-pty = "*"
regex = "1"
rev_lines = "*"
serde = { version = "1", features = ["derive"] }
serde_json = "1"
sha2 = "0.10"
thiserror = "1"
whoami = "1"
zstd = "0.13"
