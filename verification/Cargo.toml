[package]
name = "qview"
version = "0.1.0"
edition = "2021"
publish = false

[dependencies]
chrono = "=0.4.45"
clap = { version = "=4.6.7", features = ["cargo"] }
color-eyre = "=0.6.5"
quick-xml = "=0.38.4"
ratatui = "=0.30.2"
ratatui-textarea = "=0.9.4"
