[package]
name = "currency_converter"
version = "0.1.0"
edition = "2021"
publish = false

[dependencies]
rusqlite = { version = "=0.40.2", features = ["bundled"] }
serde_json = "=1.0.151"
serde = { version = "=1.0.229", features = ["derive"] }
reqwest = { version = "=0.13.5", features = ["blocking"] }
clap = "=4.6.7"
anyhow = "=1.0.104"
thiserror = "=2.0.21"
