[package]
name = "coffee_exchange"
version = "0.1.0"
edition = "2021"
publish = false

[dependencies]
anchor-lang = "0.31.2"
borsh = { version = "1.5.7", features = ["derive"] }
