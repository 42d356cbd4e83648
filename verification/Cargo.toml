[package]
name = "pipeline_transacciones"
version = "0.1.0"
edition = "2021"
publish = false

[dependencies]
rand = "0.8"
uuid = { version = "0.8", features = ["v4", "serde"] }
csv = "1"
serde = { version = "1", features = ["derive"] }
clap = "2"
