[package]
name = "cargo_ninja"
version = "0.1.0"
edition = "2021"
publish = false

[dependencies]
camino = { version = "1", features = ["serde1"] }
ninja-files = "*"
ninja-files-data = "*"
serde = { version = "1", features = ["derive"] }
serde_derive = "1"
serde_json = "1"
snailquote = "*"
