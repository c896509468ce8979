[package]
name = "cerebro"
version = "0.1.0"
edition = "2021"
publish = false

[dependencies]
anyhow = "1"
base64 = "0.22"
chrono = "0.4"
dirs-next = "2"
lopdf = "*"
petgraph = "0.6"
rand = "0.8"
serde = { version = "1", features = ["derive"] }
serde_json = "1"
subtle = "2"
uuid = { version = "1", features = ["v4"] }
