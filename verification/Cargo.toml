[package]
name = "packler"
version = "0.1.0"
edition = "2021"
publish = false

[dependencies]
anyhow = "1"
aws-config = { version = "1", default-features = false, features = ["rt-tokio", "rustls"] }
aws-sdk-s3 = { version = "1", default-features = false, features = ["rt-tokio", "rustls"] }
cargo_metadata = "0.18"
clap = "4"
futures-util = "0.3"
log = "0.4"
mime_guess = "2"
notify = "6"
seahash = "4"
tokio = { version = "1", features = ["rt-multi-thread", "fs", "process"] }
walkdir = "2"

[dev-dependencies]
serde_json = "1"
