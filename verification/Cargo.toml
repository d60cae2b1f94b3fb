[package]
name = "bashcap"
version = "0.1.0"
edition = "2021"
publish = false

[dependencies]
bash-interop = "=0.2.0"
bash-strings = "=0.1.0"
clap = { version = "=4.6.7", features = ["derive"] }
indexmap = { version = "=2.14.2", features = ["serde"] }
serde = { version = "=1.0.229", features = ["derive", "rc"] }
serde_json = "=1.0.154"
tokio = { version = "=1.54.1", features = ["rt", "macros"] }
