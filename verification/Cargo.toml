[package]
name = "load_balancer"
version = "0.1.0"
edition = "2021"
publish = false

[dependencies]
async-trait = "0.1"
pingora = { version = "*", features = ["lb"] }
pingora-proxy = "*"
tokio = { version = "1", features = ["rt", "time"] }
