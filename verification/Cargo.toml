[package]
name = "buzzoperator"
version = "0.1.0"
edition = "2021"
publish = false

[dependencies]
regex = "1"
tokio = { version = "1", features = ["rt-multi-thread", "macros", "sync", "process", "time", "net", "io-util"] }
serde = { version = "1", features = ["derive"] }
serde_json = "1"
clap = { version = "4", features = ["derive"] }
config = { version = "*", default-features = false, features = ["yaml"] }
chrono = "0.4"
libc = "0.2"
notify = "*"
async-trait = "0.1"
tracing = "0.1"
tracing-subscriber = "0.3"
