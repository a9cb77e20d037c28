[package]
name = "ghpr"
version = "0.1.0"
edition = "2021"
publish = false

[dependencies]
anyhow = "1"
arboard = { version = "3", default-features = false }
clap = { version = "4", features = ["derive"] }
crossterm = { version = "0.28", features = ["event-stream"] }
futures-util = "0.3"
jiff = "0.2"
open = "5"
ratatui = "0.29"
reqwest = { version = "0.12", features = ["json"] }
self_update = "*"
serde = { version = "1", features = ["derive"] }
serde_json = "1"
thiserror = "2"
tokio = { version = "1", features = ["rt", "macros", "sync", "time", "process"] }
tui-markdown = "=0.3.3"
tui-textarea = "0.7"
