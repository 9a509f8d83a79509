[package]
name = "trueno_viz"
version = "0.1.0"
edition = "2021"
publish = false

[dependencies]
crossterm = "=0.29.0"
dirs = "=7.0.0"
libc = "*"
nvml-wrapper = "*"
ratatui = "=0.29.0"
serde = { version = "=1.0.229", features = ["derive"] }
serde_yaml = "=0.9.34"
thiserror = "=2.0.21"
trueno = "=0.19.1"
