[package]
name = "grrr"
version = "0.1.0"
edition = "2021"
publish = false

[dependencies]
serenity = "0.10"
tokio = { version = "1", features = ["macros", "rt-multi-thread", "signal", "sync", "time"] }
reqwest = { version = "0.11", features = ["json"] }
rocksdb = { version = "0.16", default-features = false }
serde = { version = "1", features = ["derive"] }
serde_json = "1"
tracing = "0.1"
tracing-subscriber = "0.2"
dotenv = "0.15"
