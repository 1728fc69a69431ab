[package]
name = "rootcause"
version = "0.13.0"
edition = "2021"
publish = false

[dependencies]
anyhow = "1"
chrono = "0.4"
dirs = "5"
regex = "1"
rusqlite = "*"
serde = { version = "1", features = ["derive"] }
serde_json = "1"
sysinfo = "*"
walkdir = "2"
