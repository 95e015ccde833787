[package]
name = "fs_mcp"
version = "0.1.0"
edition = "2021"
publish = false

[dependencies]
globset = "=0.4.20"
base64 = "=0.23.1"
mime_guess = "=2.0.5"
clap = { version = "=4.6.7", features = ["derive"] }
dirs = "=7.0.0"
serde = { version = "=1.0.229", features = ["derive"] }
serde_json = "=1.0.151"

[dev-dependencies]
tokio = { version = "=1.53.2", features = ["rt", "rt-multi-thread", "fs", "io-util"] }
tempfile = "=3.27.0"
