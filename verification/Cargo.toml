[package]
name = "shelf"
version = "0.1.0"
edition = "2021"
publish = false

[dependencies]
anyhow = "1"
clap = { version = "4", features = ["derive"] }
log = "0.4"
mlua = { version = "0.9", features = ["lua54", "vendored"] }
path-clean = "1"
stderrlog = "0.6"
thiserror = "1"
uuid = { version = "1", features = ["v4"] }
