[package]
name = "magpie"
version = "0.1.0"
edition = "2021"
publish = false

[dependencies]
serde_json = "1"
serde = { version = "1", features = ["derive"] }
serde_yaml = "0.9"
tokio = { version = "1", features = ["full"] }
rusqlite = { version = "*", features = ["bundled"] }
redis = { version = "*", features = ["tokio-comp"] }
rand = "0.8"
clap = { version = "4", features = ["derive"] }
async-trait = "0.1"
base64 = "0.22"
reqwest = { version = "0.12", default-features = false, features = ["json", "multipart"] }
