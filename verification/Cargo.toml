[package]
name = "meta_cross"
version = "0.1.0"
edition = "2021"
publish = false

[dependencies]
rand = "0.8"
tokio = { version = "1", features = ["rt-multi-thread", "macros", "sync"] }
axum = { version = "0.6", features = ["ws"] }
clap = { version = "4", features = ["derive"] }
log = "0.4"
env_logger = "0.10"
