[package]
name = "quran_tui"
version = "0.1.0"
edition = "2021"
publish = false

[dependencies]
unicode-normalization = "=0.1.26"
time = { version = "=0.3.41", features = ["formatting"] }
serde = { version = "1", features = ["derive"] }
serde_json = "1"
anyhow = "1"
clap = { version = "4", features = ["derive"] }
crossbeam-channel = "0.5"
crossterm = { version = "0.28", features = ["serde"] }
ratatui = { version = "0.29", features = ["serde"] }
directories = "5"
libc = "0.2"
tracing = "0.1"
tracing-appender = "0.2"
tracing-subscriber = { version = "0.3", features = ["env-filter"] }
ureq = "2"
