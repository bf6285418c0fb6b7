[package]
name = "diskanalyzer"
version = "0.1.0"
edition = "2021"
publish = false

[dependencies]
nojson = "=0.3.15"
tokio = { version = "=1.54.1", features = ["rt-multi-thread", "macros", "fs", "sync"] }
crossterm = "=0.29.0"
ratatui = "=0.30.2"
