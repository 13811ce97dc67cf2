[package]
name = "ducktabe"
version = "0.1.0"
edition = "2021"
publish = false

[dependencies]
duckdb = { version = "=1.20000.1", default-features = false }
arrow = { version = "=60.1.0", default-features = false }
comfy-table = "=8.0.1"
ratatui = "=0.30.2"
ratatui-textarea = "=0.9.4"
clap = { version = "=4.6.7", features = ["derive"] }
unicode-width = "=0.2.3"
