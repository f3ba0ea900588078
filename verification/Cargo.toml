[package]
name = "zk_consensus"
version = "0.1.0"
edition = "2021"
publish = false

[dependencies]
sha2 = "*"
rand = "*"
chrono = "*"
anyhow = "*"
tokio = { version = "*", features = ["full"] }
clap = { version = "*", features = ["derive"] }
tracing = "*"
tracing-subscriber = "*"
