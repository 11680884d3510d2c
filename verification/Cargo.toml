[package]
name = "gitm"
version = "0.1.0"
edition = "2021"
publish = false

[dependencies]
chrono = "0.4"
unidiff = "0.3"
serde_json = "1"
serde = { version = "1", features = ["derive"] }
clap = { version = "4", features = ["derive"] }
tokio = { version = "1", features = ["rt-multi-thread", "macros"] }
reqwest = { version = "0.12", default-features = false, features = ["json"] }
