[package]
name = "backup_reader"
version = "0.1.0"
edition = "2021"
publish = false

[dependencies]
hex = "0.4"
hmac = "0.12"
sha2 = "0.10"
