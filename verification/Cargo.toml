[package]
name = "cquisitor_lib"
version = "0.1.0"
edition = "2021"
publish = false

[dependencies]
cardano-serialization-lib = "*"
cryptoxide = "*"
hex = "0.4"
serde = { version = "1", features = ["derive"] }
serde_json = "1"
