[package]
name = "mho"
version = "0.1.0"
edition = "2021"
publish = false

[dependencies]
actix-files = "*"
actix-web = "*"
clap = { version = "*", features = ["derive"] }
env_logger = "*"
futures-core = "*"
notify = "*"
serde = { version = "*", features = ["derive"] }
tokio = { version = "*", features = ["rt", "time", "sync", "macros"] }
walkdir = "*"
