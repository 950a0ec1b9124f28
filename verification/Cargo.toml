[package]
name = "livetree"
version = "0.1.0"
edition = "2021"
publish = false

[dependencies]
anyhow = "1"
clap = { version = "4", features = ["derive"] }
clap_complete = "4"
clap_mangen = "0.2"
crossbeam-channel = "0.5"
crossterm = "*"
ctrlc = "3"
globset = "0.4"
notify = "*"
notify-debouncer-full = "*"
ratatui = "*"
walkdir = "2"
