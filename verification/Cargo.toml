[package]
name = "wallet_view"
version = "0.1.0"
edition = "2021"
publish = false

[dependencies]
bdk = { version = "=0.19.0", default-features = false, features = ["electrum"] }
