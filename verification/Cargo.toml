[package]
name = "git_tool"
version = "0.1.0"
edition = "2021"
publish = false

[dependencies]
http = "0.2"
hyper = { version = "0.14", features = ["client", "http1", "tcp"] }
tokio = { version = "1", features = ["rt", "macros"] }
serde = { version = "1", features = ["derive"] }
serde_json = "1"
serde_yaml = "0.9"
async-trait = "0.1"
clap = "2"
gtmpl = "*"
