[package]
name = "scaffolder"
version = "0.1.0"
edition = "2021"
publish = false

[dependencies]
anyhow = "1"
dialoguer = "0.11"
minijinja = { version = "2", features = ["loader"] }
mlua = { version = "0.10", features = ["lua54", "vendored"] }
serde = "1"
serde_json = "1"
tempfile = "3"
walkdir = "2"
