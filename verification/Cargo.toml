[package]
name = "kumuteva"
version = "0.1.0"
edition = "2021"
publish = false

[dependencies]
anyhow = "1"
async-trait = "0.1"
colored = "*"
futures = "0.3"
k8s-openapi = { version = "*", features = ["latest"] }
kube = { version = "*", default-features = false, features = ["client", "ws"] }
rand = "*"
serde = { version = "1", features = ["derive"] }
serde_json = "1"
tabled = "*"
terminal_size = "*"
tokio = { version = "1", features = ["rt-multi-thread", "macros", "time", "sync", "fs", "io-util"] }
tracing = "0.1"
uuid = { version = "1", features = ["v4"] }
