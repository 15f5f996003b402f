[package]
name = "curlio"
version = "0.3.0"
edition = "2021"
publish = false

[dependencies]
clap = "4"
futures = "0.3"
reqwest = { version = "0.12", features = ["blocking", "multipart"] }
serde_json = "1"
tokio = { version = "1", features = ["macros", "rt-multi-thread"] }
