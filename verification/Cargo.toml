[package]
name = "affine-cli"
version = "0.3.0"
edition = "2021"
publish = false

[dependencies]
anyhow = "1"
clap = { version = "4", features = ["derive", "env"] }
dirs = "5"
mime_guess = "2"
reqwest = { version = "0.12", features = ["json", "multipart"] }
rust_socketio = { version = "0.6", features = ["async"] }
serde = { version = "1", features = ["derive"] }
serde_json = "1"
tokio = { version = "1", features = ["full"] }
url = "2"
