[package]
name = "registry_search"
version = "0.1.0"
edition = "2021"
publish = false

[dependencies]
crossterm = "0.26"
directories = "5"
num_cpus = "1"
parking_lot = "0.12"
ratatui = "0.21"
tokio = { version = "1", features = ["macros", "rt-multi-thread", "sync", "time"] }
tracing = "0.1"
tracing-appender = "0.2"
tracing-subscriber = "0.3"
tui = "0.19"
winreg = "0.50"
