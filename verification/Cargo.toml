[package]
name = "tunefold"
version = "0.1.0"
edition = "2021"
publish = false

[dependencies]
anyhow = "=1.0.104"
crossterm = { version = "=0.28.1", features = ["event-stream"] }
ratatui = "=0.29.0"
tokio = { version = "=1.54.1", features = ["rt", "rt-multi-thread", "sync", "macros", "time"] }
tracing = "=0.1.44"
