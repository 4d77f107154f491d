[package]
name = "cercami"
version = "0.1.0"
edition = "2021"
publish = false

[dependencies]
croaring = "*"
rust-stemmers = "*"
quick-xml = { version = "*", features = ["serialize"] }
serde = { version = "*", features = ["derive"] }
