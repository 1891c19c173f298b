[package]
name = "paper_client"
version = "0.1.0"
edition = "2021"
publish = false

[dependencies]
paper-utils = "*"
thiserror = "*"
bytes = "*"
tokio = { version = "*", features = ["net", "io-util", "sync", "rt", "macros"] }
