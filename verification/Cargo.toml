[package]
name = "mlxtop"
version = "1.1.1"
edition = "2021"
publish = false

[dependencies]
libproc = "0.14"
ratatui = { version = "0.29", default-features = false }
serde_json = "1"
