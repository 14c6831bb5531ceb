[package]
name = "jvm"
version = "0.1.0"
edition = "2021"
publish = false

[dependencies]
clap = { version = "4", features = ["derive"] }
once_cell = "1"
thiserror = "2"
tracing-log = "0.2"
