[package]
name = "loadgen"
version = "0.1.0"
edition = "2021"
publish = false

[dependencies]
clap = "3"
reqwest = { version = "0.11", default-features = false }
tokio = { version = "1", features = ["rt-multi-thread"] }
