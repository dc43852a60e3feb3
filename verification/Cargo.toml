[package]
name = "ulb_plugins"
version = "0.6.0"
edition = "2021"
publish = false

[dependencies]
serde = { version = "1", features = ["derive"] }
serde_json = "1"
