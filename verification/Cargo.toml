[package]
name = "invaders"
version = "0.1.0"
edition = "2021"
publish = false

[dependencies]
anyhow = "=1.0.104"
crossterm = "=0.27.0"
ratatui = "=0.26.3"
rusty_audio = "=1.4.1"
rusty_time = "=1.1.0"
