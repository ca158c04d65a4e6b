[package]
name = "countdown"
version = "0.1.0"
edition = "2021"
publish = false

[dependencies]
clap = { version = "=4.6.7", features = ["derive"] }
crossterm = { version = "=0.29.0", features = ["event-stream"] }
futures-util = "=0.3.34"
human-errors = "=0.1.5"
tokio = { version = "=1.54.1", features = ["rt", "time", "macros", "signal"] }
