[package]
name = "helper"
version = "0.1.0"
edition = "2021"
publish = false

[dependencies]
rand = "0.8"
hdrhistogram = "7"
clap = { version = "4", features = ["derive"] }
tokio = { version = "1", features = ["rt-multi-thread", "macros", "signal", "time", "sync", "process"] }
sqlx = { version = "0.8", default-features = false, features = ["runtime-tokio", "postgres", "uuid", "chrono", "macros"] }
indicatif = "0.17"
anyhow = "1"
tracing = "0.1"
tracing-subscriber = "0.3"
chrono = "0.4"
uuid = "1"
serde = { version = "1", features = ["derive"] }
serde_json = "1"
