[package]
name = "dblp_rs"
version = "0.1.0"
edition = "2021"
publish = false

[dependencies]
anyhow = "=1.0.104"
reqwest = { version = "=0.13.5", features = ["json", "query"] }
serde = "=1.0.229"
serde_json = "=1.0.151"
