[package]
name = "libbdgt"
version = "0.1.0"
edition = "2021"
publish = false

[dependencies]
chrono = "*"
dirs = "*"
flexbuffers = "*"
git2 = { version = "*", default-features = false }
serde = { version = "*", features = ["derive"] }
