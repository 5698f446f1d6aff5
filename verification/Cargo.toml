[package]
name = "confidence"
version = "0.1.0"
edition = "2021"
publish = false

[dependencies]
serde = { version = "*", features = ["derive"] }
serde_json = "*"
reqwest = { version = "*", default-features = false, features = ["blocking"] }
tokio = { version = "*", features = ["rt", "rt-multi-thread", "macros"] }
chrono = "*"
async-trait = "*"
open-feature = "*"
rand = "*"
