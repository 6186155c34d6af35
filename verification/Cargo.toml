[package]
name = "simple_ssh_tui"
version = "0.1.0"
edition = "2021"
publish = false

[dependencies]
crossterm = "0.28.1"
dirs = "6.0.0"
dirs-next = "2.0.0"
portable-pty = "0.9.0"
ratatui = "0.29.0"
tracing = "0.1.44"
