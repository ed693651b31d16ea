[package]
name = "railscale"
version = "0.1.0"
edition = "2021"
publish = false

[dependencies]
bytes = "1"
memchr = "2"
tokio = { version = "1", features = ["full"] }
tokio-util = { version = "0.7", features = ["codec"] }
tokio-stream = "0.1"
async-trait = "0.1"
async-stream = "0.3"
dashmap = "6"
chrono = "0.4"
tracing = "0.1"
pin-project-lite = "0.2"
sysinfo = "*"
opentelemetry = { version = "*", features = ["metrics"] }
