[package]
name = "web_fetch"
version = "0.1.0"
edition = "2021"
publish = false

[dependencies]
nwep = "=0.1.0"
serde = { version = "1", features = ["derive"] }
