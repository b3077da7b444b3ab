[package]
name = "macprox"
version = "0.1.0"
edition = "2021"
publish = false

[dependencies]
dirs = "*"
slint = { version = "1", default-features = false, features = ["std", "compat-1-2"] }
tokio = { version = "1", features = ["macros", "process", "rt-multi-thread", "time"] }
walkdir = "2"
