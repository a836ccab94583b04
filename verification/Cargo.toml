[package]
name = "ezraft"
version = "0.2.0"
edition = "2021"
publish = false

[dependencies]
actix-web = { version = "4", default-features = false }
async-trait = "0.1"
futures = "0.3"
openraft = { version = "=0.10.0-alpha.32", features = ["serde"] }
reqwest = { version = "0.12", default-features = false, features = ["json"] }
serde = { version = "1", features = ["derive"] }
serde_json = "1"
tokio = { version = "1", features = ["fs", "io-util", "macros", "rt-multi-thread", "sync", "time"] }
