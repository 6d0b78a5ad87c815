[package]
name = "forgejo_backend"
version = "0.1.0"
edition = "2021"
publish = false

[dependencies]
url = "2"
heck = "0.5"
reqwest = { version = "0.12", default-features = false, features = ["json"] }
tokio = { version = "1", features = ["rt", "sync", "macros"] }
async-trait = "0.1"
eyre = "0.6"
serde = { version = "1", features = ["derive"] }
serde_json = "1"
