[package]
name = "bm1_server"
version = "0.1.0"
edition = "2021"
publish = false

[dependencies]
anyhow = "1"
prost = "*"
tokio = { version = "1", features = ["full"] }
