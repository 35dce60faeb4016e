[package]
name = "crypto"
version = "0.1.0"
edition = "2021"
publish = false

[dependencies]
serde = { version = "1", features = ["derive"] }
serde_derive = "1"
toml = "0.8"

[dev-dependencies]
rand = "0.8"
