[package]
name = "blobstore"
version = "0.1.0"
edition = "2021"
publish = false

[dependencies]
sled = "0.34"
sha1 = "0.10"
rand = "0.8"
actix-web = "4"
actix-multipart = "0.6"
actix-rt = "2"
tokio = { version = "1", features = ["fs", "io-util"] }
futures = "0.3"
chrono = "0.4"
serde = { version = "1", features = ["derive"] }
serde_json = "1"
walkdir = "2"
dotenv = "0.15"
env_logger = "0.10"
tracing = "0.1"
anyhow = "1"
