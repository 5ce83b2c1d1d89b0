[package]
name = "songbook"
version = "0.1.0"
edition = "2021"
publish = false

[dependencies]
sqlite = "*"
serde = { version = "*", features = ["derive"] }
toml = "*"
