[package]
name = "rnas"
version = "0.1.0"
edition = "2021"
publish = false

[dependencies]
sha2 = "*"
md-5 = "*"
serde = { version = "*", features = ["derive"] }
toml = "*"
