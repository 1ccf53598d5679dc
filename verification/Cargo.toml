[package]
name = "lab_resource_manager"
version = "0.1.0"
edition = "2021"
publish = false

[dependencies]
chrono = "0.4"
chrono-tz = "0.10"
uuid = { version = "1", features = ["v4"] }
serde = { version = "1", features = ["derive"] }
serde_json = "1"
toml = "0.8"
tokio = { version = "1", features = ["full"] }
tracing = "0.1"
async-trait = "0.1"
thiserror = "2"
slack-morphism = { version = "2", features = ["hyper"] }
google-calendar3 = "6"
reqwest = { version = "0.12", features = ["json"] }
