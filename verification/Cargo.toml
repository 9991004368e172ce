[package]
name = "maki"
version = "0.1.0"
edition = "2021"
publish = false

[dependencies]
arc-swap = "1"
crossterm = "*"
flume = "*"
futures-lite = "2"
mlua = { version = "*", features = ["lua54", "vendored", "async"] }
ratatui = "*"
serde = { version = "1", features = ["derive"] }
serde_json = "1"
smol = "2"
tracing = "0.1"
