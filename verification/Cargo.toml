[package]
name = "monitr"
version = "0.1.0"
edition = "2021"
publish = false

[dependencies]
crossterm = "*"
libc = "*"
ratatui-core = "*"
ratatui-widgets = "*"
serde = { version = "1", features = ["derive"] }
serde_json = "1"
sysinfo = "*"
