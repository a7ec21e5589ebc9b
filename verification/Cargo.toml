[package]
name = "checkpoint_db"
version = "0.1.0"
edition = "2021"
publish = false

[dependencies]
chrono = "*"
serde = "*"
serde_derive = "*"
serde_json = "*"
