[package]
name = "disk_cleaner"
version = "0.1.0"
edition = "2021"
publish = false

[dependencies]
walkdir = "*"
humansize = "*"
fs-err = "*"
dialoguer = "*"
tokio = { version = "*", features = ["rt-multi-thread", "macros"] }

[dev-dependencies]
tempfile = "*"
