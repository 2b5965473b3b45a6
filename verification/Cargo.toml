[package]
name = "gmo_coin"
version = "0.1.0"
edition = "2021"
publish = false

[dependencies]
async-trait = "*"
chrono = "*"
reqwest = { version = "*", default-features = false }
