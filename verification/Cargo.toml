[package]
name = "neonchain"
version = "0.1.0"
edition = "2021"
publish = false

[dependencies]
chrono = "*"
parking_lot = "*"
rouille = "*"
serde = { version = "*", features = ["derive"] }
sha2 = "*"
