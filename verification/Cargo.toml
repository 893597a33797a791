[package]
name = "lineark"
version = "0.1.0"
edition = "2021"
publish = false

[dependencies]
uuid = "1"
percent-encoding = "2"
chrono = "0.4"
clap = { version = "4", features = ["derive"] }
serde = { version = "1", features = ["derive"] }
serde_json = "1"
tabled = "*"
colored = "*"
tokio = { version = "1", features = ["rt-multi-thread", "macros", "fs"] }
anyhow = "1"
home = "*"
reqwest = { version = "0.12", default-features = false, features = ["json", "rustls-tls"] }
