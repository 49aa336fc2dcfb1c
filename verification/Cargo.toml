[package]
name = "chat_client"
version = "0.1.0"
edition = "2021"
publish = false

[dependencies]
indexmap = "=2.14.2"
uuid = "=1.29.0"
prost-types = "=0.12.6"
tonic = { version = "=0.11.0", features = ["tls"] }
tokio = { version = "=1.54.1", features = ["macros", "rt-multi-thread", "sync", "time"] }
tokio-stream = "=0.1.19"
tokio-util = "=0.7.20"
ratatui = "=0.26.3"
crossterm = "=0.27.0"
color-eyre = "=0.6.5"
