[package]
name = "subagent_panel"
version = "0.1.0"
edition = "2021"
publish = false

[dependencies]
ratatui = { version = "0.29", default-features = false, features = ["unstable-rendered-line-info"] }
tokio = { version = "1", features = ["sync"] }
