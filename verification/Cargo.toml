[package]
name = "shotover"
version = "0.1.0"
edition = "2021"
publish = false

[dependencies]
anyhow = "1"
async-trait = "0.1"
atomic_enum = "*"
kafka-protocol = "*"
pretty_assertions = "1"
serde = { version = "1", features = ["derive"] }
tokio = { version = "1", features = ["rt", "net", "time", "sync"] }
tracing = "0.1"
