[package]
name = "conver"
version = "0.1.0"
edition = "2021"
publish = false

[dependencies]
bincode = "1.3.3"
clap = "2"
redis = "*"
serde = { version = "1", features = ["derive"] }
