[package]
name = "kanshi"
version = "0.1.0"
edition = "2021"
publish = false

[dependencies]
anyhow = "1"
async-trait = "0.1"
bigdecimal = "0.4"
clap = "4"
dotenv = "0.15"
futures = "0.3"
redis = "*"
serde = { version = "1", features = ["derive"] }
serde_json = "1"
starknet = "*"
tokio = { version = "1", features = ["full"] }
tokio-postgres = "0.7"
