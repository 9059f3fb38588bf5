[package]
name = "remy_core"
version = "0.1.0"
edition = "2021"
publish = false

[dependencies]
smallvec = "1"
crossterm = "0.28"
ratatui = { version = "0.29", default-features = false }
tokio = { version = "1", features = ["rt", "time", "sync", "macros"] }
rapidhash = "*"
arc-swap = "1"
dashmap = "6"
futures-util = "0.3"
linkme = "0.3"
