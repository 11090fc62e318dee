[package]
name = "tdi"
version = "0.1.0"
edition = "2021"
publish = false

[dependencies]
serde_json = "1"
chrono = { version = "0.4", features = ["serde"] }
tokio = { version = "1", features = ["full"] }
warp = "0.3"
http = "0.2"
clap = { version = "4", features = ["derive"] }
rustyline = "*"
directories = "*"
anyhow = "1"
serde = { version = "1", features = ["derive"] }
