[package]
name = "dtn7"
version = "0.1.0"
edition = "2021"
publish = false

[dependencies]
bp7 = "*"
log = "*"
serde = { version = "*", features = ["derive"] }
