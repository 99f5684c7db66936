[package]
name = "wordle"
version = "0.1.0"
edition = "2021"
publish = false

[dependencies]
atty = "0.2"
color-eyre = "0.6"
colored = "2"
crossterm = { version = "0.27", features = ["event-stream"] }
futures = "0.3"
pretty_env_logger = "0.5"
rand = "0.8"
ratatui = "0.23"
structopt = "0.3"
thiserror = "1"
tokio = { version = "1", features = ["full"] }
tokio-util = "0.7"
