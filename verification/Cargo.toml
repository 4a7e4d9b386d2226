[package]
name = "benoop"
version = "0.1.0"
edition = "2021"
publish = false

[dependencies]
rand = "0.8"
bincode = "1"
clap = { version = "4", features = ["derive"] }
colored = "*"
crossbeam-channel = "*"
reqwest = { version = "*", default-features = false }
serde = { version = "1", features = ["derive"] }
serde_yaml = "*"
thiserror = "*"
tokio = { version = "1", features = ["rt-multi-thread", "macros"] }
