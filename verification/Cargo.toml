[package]
name = "price_sync"
version = "0.1.0"
edition = "2021"
publish = false

[dependencies]
serde_json = "=1.0.154"
serde = { version = "=1.0.229", features = ["derive"] }
reqwest = { version = "=0.12.28", features = ["multipart"] }
tokio = { version = "=1.54.1", features = ["full"] }
calamine = "=0.37.0"
dotenv = "=0.15.0"
rfd = { version = "=0.17.2", default-features = false, features = ["xdg-portal"] }
