[package]
name = "grug"
version = "0.1.0"
edition = "2021"
publish = false

[dependencies]
bnum = "0.12"
borsh = { version = "1", features = ["derive"] }
serde = "1"
